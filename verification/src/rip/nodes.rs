//! The nodes of a RIP pipeline, one value per created node: the kind a
//! description names selects the node that is created, and configuration
//! values sent under a key reach every node.
use crate::config::{ConfigValue, ValueView};
use crate::data_bus::{BusRegistry, LocalView, SubView};
use crate::description::{NodeDecl, decls_view};
use crate::node_kind::{NodeKind, reported_name};
use crate::node_options::{NodeCreateInfo, option_locals, option_subs, options_subscribed};
use crate::rip::processors::{
    AdaptiveThreshold,
    Arithmetic,
    ChromaKey,
    ConnectedComponents,
    Crop,
    Monochrome,
    ObjectHighlight,
    Tonemap,
    adaptive_threshold_options,
    arithmetic_options,
    chroma_key_options,
    crop_options,
    luma_options,
    tonemap_options,
};
use crate::rip::starters::{ImageLoad, image_load_options};
use crate::swspp::finishers::{Display, ImageWrite, display_options, image_write_options};
use crate::swspp::processors::{Blur, Inverse, Transform, blur_options, one, transform_options, zero};
use vstd::prelude::*;

verus! {

/// A created node. Kinds whose node has no implementation here (`pattern`,
/// `threshold`, `overlay`, `color_space_conversion`, and the SWSPP-only
/// `agl` and `intensify`) keep their name and kind only.
pub enum RipNode {
    ImageLoad(ImageLoad),
    Arithmetic(Arithmetic),
    Tonemap(Tonemap),
    Monochrome(Monochrome),
    AdaptiveThreshold(AdaptiveThreshold),
    ChromaKey(ChromaKey),
    Crop(Crop),
    ObjectHighlight(ObjectHighlight),
    ConnectedComponents(ConnectedComponents),
    Inverse(Inverse),
    Blur(Blur),
    Transform(Transform),
    ImageWrite(ImageWrite),
    Display(Display),
    Unavailable(String, NodeKind),
}

/// The options a node of `kind` subscribes when it is created.
pub open spec fn kind_options(kind: NodeKind) -> Seq<(Seq<char>, u64)> {
    match kind {
        NodeKind::ImageLoad => image_load_options(),
        NodeKind::Arithmetic => arithmetic_options(),
        NodeKind::Tonemap => tonemap_options(),
        NodeKind::Monochrome => luma_options(),
        NodeKind::AdaptiveThreshold => adaptive_threshold_options(),
        NodeKind::ChromaKey => chroma_key_options(),
        NodeKind::Crop => crop_options(),
        NodeKind::ObjectHighlight => luma_options(),
        NodeKind::Blur => blur_options(),
        NodeKind::Transform => transform_options(),
        NodeKind::ImageWrite => image_write_options(),
        NodeKind::Display => display_options(),
        _ => Seq::empty(),
    }
}

impl RipNode {
    /// The kind of the node.
    pub open spec fn kind(self) -> NodeKind {
        match self {
            RipNode::ImageLoad(_) => NodeKind::ImageLoad,
            RipNode::Arithmetic(_) => NodeKind::Arithmetic,
            RipNode::Tonemap(_) => NodeKind::Tonemap,
            RipNode::Monochrome(_) => NodeKind::Monochrome,
            RipNode::AdaptiveThreshold(_) => NodeKind::AdaptiveThreshold,
            RipNode::ChromaKey(_) => NodeKind::ChromaKey,
            RipNode::Crop(_) => NodeKind::Crop,
            RipNode::ObjectHighlight(_) => NodeKind::ObjectHighlight,
            RipNode::ConnectedComponents(_) => NodeKind::ConnectedComponents,
            RipNode::Inverse(_) => NodeKind::Inverse,
            RipNode::Blur(_) => NodeKind::Blur,
            RipNode::Transform(_) => NodeKind::Transform,
            RipNode::ImageWrite(_) => NodeKind::ImageWrite,
            RipNode::Display(_) => NodeKind::Display,
            RipNode::Unavailable(_, k) => k,
        }
    }

    /// The name the node was created under.
    pub open spec fn created_name(self) -> Seq<char> {
        match self {
            RipNode::ImageLoad(n) => n@.name,
            RipNode::Arithmetic(n) => n.name@,
            RipNode::Tonemap(n) => n.name@,
            RipNode::Monochrome(n) => n.name@,
            RipNode::AdaptiveThreshold(n) => n.name@,
            RipNode::ChromaKey(n) => n.name@,
            RipNode::Crop(n) => n.name@,
            RipNode::ObjectHighlight(n) => n.name@,
            RipNode::ConnectedComponents(n) => n.name@,
            RipNode::Inverse(n) => n.name@,
            RipNode::Blur(n) => n.name@,
            RipNode::Transform(n) => n.name@,
            RipNode::ImageWrite(n) => n@.name,
            RipNode::Display(n) => n.name@,
            RipNode::Unavailable(name, _) => name@,
        }
    }

    /// The subscriptions the node's bus holds.
    pub open spec fn bus_view(self) -> Seq<LocalView> {
        match self {
            RipNode::ImageLoad(n) => n@.bus,
            RipNode::Arithmetic(n) => n.data_bus@,
            RipNode::Tonemap(n) => n.data_bus@,
            RipNode::Monochrome(n) => n.data_bus@,
            RipNode::AdaptiveThreshold(n) => n.data_bus@,
            RipNode::ChromaKey(n) => n.data_bus@,
            RipNode::Crop(n) => n.data_bus@,
            RipNode::ObjectHighlight(n) => n.data_bus@,
            RipNode::ConnectedComponents(n) => n.data_bus@,
            RipNode::Inverse(n) => n.data_bus@,
            RipNode::Blur(n) => n.data_bus@,
            RipNode::Transform(n) => n.data_bus@,
            RipNode::ImageWrite(n) => n@.bus,
            RipNode::Display(n) => n.data_bus@,
            RipNode::Unavailable(_, _) => Seq::empty(),
        }
    }

    /// The node holds the settings it is created with.
    pub open spec fn initially(self) -> bool {
        match self {
            RipNode::ImageLoad(n) => n@.path == Seq::<char>::empty() && !n@.loaded,
            RipNode::Arithmetic(n) => n.mode == 0 && n.num_received_inputs == 0,
            RipNode::Tonemap(n) => {
                &&& n.mode == 0
                &&& n.histogram.config.num_bins == 64
                &&& n.histogram.config.min_rad == crate::gpgpu::number_zero()
                &&& n.histogram.config.max_rad == crate::gpgpu::number_one()
                &&& !n.histogram.calculated
                &&& !n.has_input
                &&& n.tonecurve_len == 64
            },
            RipNode::Monochrome(n) => n.mode == 0,
            RipNode::AdaptiveThreshold(n) => n.radius == 4 && n.mode == 0,
            RipNode::ChromaKey(n) => {
                &&& n.red == 0 && n.green == 256 && n.blue == 0
                &&& n.low_range == (crate::json_doc::JsonNumber { positive: true, mantissa: 1, exponent: -1i16 })
                &&& n.high_range == (crate::json_doc::JsonNumber { positive: true, mantissa: 5, exponent: -1i16 })
                &&& n.num_received_inputs == 0
            },
            RipNode::Crop(n) => n.top == 20 && n.left == 20 && n.bottom == 20 && n.right == 20,
            RipNode::ObjectHighlight(n) => {
                &&& n.mode == 0
                &&& !n.has_input
                &&& n.scaled_width == 0 && n.scaled_height == 0
            },
            RipNode::ConnectedComponents(n) => n.indices_len == 0,
            RipNode::Inverse(_) => true,
            RipNode::Blur(n) => n.radius == 5,
            RipNode::Transform(n) => {
                &&& n.offset_x == zero() && n.offset_y == zero()
                &&& n.scale_x == one() && n.scale_y == one()
                &&& n.shear_x == zero() && n.shear_y == zero()
                &&& n.rotation == zero()
            },
            RipNode::ImageWrite(n) => n@.path == "swspp_image_output.png"@ && !n@.has_view,
            RipNode::Display(n) => {
                &&& !n.fullscreen
                &&& !n.has_window
                &&& !n.has_view
                &&& n.num_images_blitted == 0
            },
            RipNode::Unavailable(_, _) => true,
        }
    }

    /// `after` is `before` once a value arrived under `key`: the node of the
    /// same kind, changed as that node changes on the value.
    pub open spec fn received_as(before: RipNode, after: RipNode, key: Seq<char>, value: ValueView) -> bool {
        match (before, after) {
            (RipNode::ImageLoad(a), RipNode::ImageLoad(b)) => b@ == a@.received(key, value),
            (RipNode::Arithmetic(a), RipNode::Arithmetic(b)) => b == a.received(key, value),
            (RipNode::Tonemap(a), RipNode::Tonemap(b)) => b == a.received(key, value),
            (RipNode::Monochrome(a), RipNode::Monochrome(b)) => b == a.received(key, value),
            (RipNode::AdaptiveThreshold(a), RipNode::AdaptiveThreshold(b)) => b == a.received(
                key,
                value,
            ),
            (RipNode::ChromaKey(a), RipNode::ChromaKey(b)) => b == a.received(key, value),
            (RipNode::Crop(a), RipNode::Crop(b)) => b == a.received(key, value),
            (RipNode::ObjectHighlight(a), RipNode::ObjectHighlight(b)) => b == a.received(key, value),
            (RipNode::ConnectedComponents(a), RipNode::ConnectedComponents(b)) => b == a,
            (RipNode::Inverse(a), RipNode::Inverse(b)) => b == a,
            (RipNode::Blur(a), RipNode::Blur(b)) => b == a.received(key, value),
            (RipNode::Transform(a), RipNode::Transform(b)) => b == a.received(key, value),
            (RipNode::ImageWrite(a), RipNode::ImageWrite(b)) => b@ == a@.received(key, value),
            (RipNode::Display(a), RipNode::Display(b)) => b == a.received(key, value),
            (RipNode::Unavailable(n, k), RipNode::Unavailable(m, l)) => m == n && l == k,
            _ => false,
        }
    }

    /// Creates the node of `kind` named by `info`, subscribing its options.
    pub fn create(kind: NodeKind, info: &NodeCreateInfo, registry: &mut BusRegistry) -> (r: Self)
        requires
            old(registry)@.wf(),
            old(registry)@.counter + 7 <= u64::MAX,
        ensures
            r.kind() == kind,
            r.created_name() == info.name@,
            r.initially(),
            options_subscribed(
                old(registry)@,
                final(registry)@,
                r.bus_view(),
                info.name@,
                kind_options(kind),
            ),
    {
        proof {
            let b = registry@;
            assert(b.subs + Seq::<crate::data_bus::SubView>::empty() =~= b.subs);
            assert(crate::node_options::option_subs(info.name@, Seq::empty(), b.counter) =~= Seq::<
                crate::data_bus::SubView,
            >::empty());
            assert(crate::node_options::option_locals(info.name@, Seq::empty(), b.counter) =~= Seq::<
                LocalView,
            >::empty());
        }
        match kind {
            NodeKind::ImageLoad => RipNode::ImageLoad(ImageLoad::new(info, registry)),
            NodeKind::Arithmetic => RipNode::Arithmetic(Arithmetic::new(info, registry)),
            NodeKind::Tonemap => RipNode::Tonemap(Tonemap::new(info, registry)),
            NodeKind::Monochrome => RipNode::Monochrome(Monochrome::new(info, registry)),
            NodeKind::AdaptiveThreshold => RipNode::AdaptiveThreshold(
                AdaptiveThreshold::new(info, registry),
            ),
            NodeKind::ChromaKey => RipNode::ChromaKey(ChromaKey::new(info, registry)),
            NodeKind::Crop => RipNode::Crop(Crop::new(info, registry)),
            NodeKind::ObjectHighlight => RipNode::ObjectHighlight(ObjectHighlight::new(info, registry)),
            NodeKind::ConnectedComponents => RipNode::ConnectedComponents(
                ConnectedComponents::new(info),
            ),
            NodeKind::Inverse => RipNode::Inverse(Inverse::new(info)),
            NodeKind::Blur => RipNode::Blur(Blur::new(info, registry)),
            NodeKind::Transform => RipNode::Transform(Transform::new(info, registry)),
            NodeKind::ImageWrite => RipNode::ImageWrite(ImageWrite::new(info, registry)),
            NodeKind::Display => RipNode::Display(Display::new(info, registry)),
            _ => RipNode::Unavailable(info.name.as_str().to_owned(), kind),
        }
    }

    /// Applies a value sent under `key`.
    pub fn receive(&mut self, key: &str, value: &ConfigValue)
        ensures
            RipNode::received_as(*old(self), *final(self), key@, value@),
    {
        match self {
            RipNode::ImageLoad(n) => n.receive(key, value),
            RipNode::Arithmetic(n) => n.receive(key, value),
            RipNode::Tonemap(n) => n.receive(key, value),
            RipNode::Monochrome(n) => n.receive(key, value),
            RipNode::AdaptiveThreshold(n) => n.receive(key, value),
            RipNode::ChromaKey(n) => n.receive(key, value),
            RipNode::Crop(n) => n.receive(key, value),
            RipNode::ObjectHighlight(n) => n.receive(key, value),
            RipNode::ConnectedComponents(_) => {},
            RipNode::Inverse(_) => {},
            RipNode::Blur(n) => n.receive(key, value),
            RipNode::Transform(n) => n.receive(key, value),
            RipNode::ImageWrite(n) => n.receive(key, value),
            RipNode::Display(n) => n.receive(key, value),
            RipNode::Unavailable(_, _) => {},
        }
    }

    /// The name the node reports.
    pub fn name(&self) -> (r: String)
        ensures
            r@ == reported_name(self.kind(), self.created_name()),
    {
        match self {
            RipNode::ImageLoad(n) => n.name(),
            RipNode::Arithmetic(n) => n.name(),
            RipNode::Tonemap(n) => n.name(),
            RipNode::Monochrome(n) => n.name(),
            RipNode::AdaptiveThreshold(n) => n.name(),
            RipNode::ChromaKey(n) => n.name(),
            RipNode::Crop(n) => n.name(),
            RipNode::ObjectHighlight(n) => n.name(),
            RipNode::ConnectedComponents(n) => n.name(),
            RipNode::Inverse(n) => n.name(),
            RipNode::Blur(n) => n.name(),
            RipNode::Transform(n) => n.name(),
            RipNode::ImageWrite(n) => n.name(),
            RipNode::Display(n) => n.name(),
            RipNode::Unavailable(name, kind) => crate::node_kind::reported_name_exec(
                *kind,
                name.as_str(),
            ),
        }
    }

    /// The kind of the node.
    pub fn node_kind(&self) -> (k: NodeKind)
        ensures
            k == self.kind(),
    {
        match self {
            RipNode::ImageLoad(_) => NodeKind::ImageLoad,
            RipNode::Arithmetic(_) => NodeKind::Arithmetic,
            RipNode::Tonemap(_) => NodeKind::Tonemap,
            RipNode::Monochrome(_) => NodeKind::Monochrome,
            RipNode::AdaptiveThreshold(_) => NodeKind::AdaptiveThreshold,
            RipNode::ChromaKey(_) => NodeKind::ChromaKey,
            RipNode::Crop(_) => NodeKind::Crop,
            RipNode::ObjectHighlight(_) => NodeKind::ObjectHighlight,
            RipNode::ConnectedComponents(_) => NodeKind::ConnectedComponents,
            RipNode::Inverse(_) => NodeKind::Inverse,
            RipNode::Blur(_) => NodeKind::Blur,
            RipNode::Transform(_) => NodeKind::Transform,
            RipNode::ImageWrite(_) => NodeKind::ImageWrite,
            RipNode::Display(_) => NodeKind::Display,
            RipNode::Unavailable(_, k) => *k,
        }
    }
}

/// The number of options the nodes `ds` subscribe, together.
pub open spec fn total_options(ds: Seq<(Seq<char>, NodeKind)>) -> nat
    decreases ds.len(),
{
    if ds.len() == 0 {
        0
    } else {
        total_options(ds.drop_last()) + kind_options(ds.last().1).len()
    }
}

/// The subscriptions that creating the nodes `ds` in order adds to a
/// registry whose next id is `start`.
pub open spec fn nodes_subs(ds: Seq<(Seq<char>, NodeKind)>, start: nat) -> Seq<SubView>
    decreases ds.len(),
{
    if ds.len() == 0 {
        Seq::empty()
    } else {
        nodes_subs(ds.drop_last(), start) + option_subs(
            ds.last().0,
            kind_options(ds.last().1),
            start + total_options(ds.drop_last()),
        )
    }
}

/// Creates the nodes of a description, in order, each under its name. The
/// registry receives the subscriptions of each node's options, node after
/// node.
pub fn create_nodes(decls: &Vec<NodeDecl>, registry: &mut BusRegistry) -> (r: Vec<RipNode>)
    requires
        old(registry)@.wf(),
        old(registry)@.counter + 7 * decls@.len() <= u64::MAX,
    ensures
        r@.len() == decls@.len(),
        forall|i: int|
            0 <= i < r@.len() ==> (#[trigger] r@[i]).kind() == decls_view(decls@)[i].1
                && r@[i].created_name() == decls_view(decls@)[i].0 && r@[i].initially()
                && r@[i].bus_view() == option_locals(
                decls_view(decls@)[i].0,
                kind_options(decls_view(decls@)[i].1),
                old(registry)@.counter + total_options(decls_view(decls@).take(i)),
            ),
        final(registry)@.wf(),
        final(registry)@.subs == old(registry)@.subs + nodes_subs(
            decls_view(decls@),
            old(registry)@.counter,
        ),
        final(registry)@.counter == old(registry)@.counter + total_options(decls_view(decls@)),
{
    let ghost start = registry@.counter;
    let ghost subs0 = registry@.subs;
    let ghost dv = decls_view(decls@);
    let mut r: Vec<RipNode> = Vec::new();
    let mut i: usize = 0;
    proof {
        assert(dv.take(0) =~= Seq::<(Seq<char>, NodeKind)>::empty());
        assert(subs0 + nodes_subs(dv.take(0), start) =~= subs0);
    }
    while i < decls.len()
        invariant
            i <= decls@.len(),
            dv == decls_view(decls@),
            r@.len() == i,
            registry@.wf(),
            start + 7 * decls@.len() <= u64::MAX,
            total_options(dv.take(i as int)) <= 7 * i,
            registry@.counter == start + total_options(dv.take(i as int)),
            registry@.subs == subs0 + nodes_subs(dv.take(i as int), start),
            forall|j: int|
                0 <= j < i ==> (#[trigger] r@[j]).kind() == dv[j].1 && r@[j].created_name()
                    == dv[j].0 && r@[j].initially() && r@[j].bus_view() == option_locals(
                    dv[j].0,
                    kind_options(dv[j].1),
                    start + total_options(dv.take(j)),
                ),
        decreases decls@.len() - i,
    {
        proof {
            assert(dv.take(i + 1).drop_last() =~= dv.take(i as int));
            assert(dv.take(i + 1).last() == dv[i as int]);
            assert(kind_options(dv[i as int].1).len() <= 7);
        }
        let info = NodeCreateInfo::new(decls[i].name.as_str());
        let node = RipNode::create(decls[i].kind, &info, registry);
        proof {
            assert(registry@.subs =~= subs0 + nodes_subs(dv.take(i + 1), start));
        }
        r.push(node);
        i = i + 1;
    }
    proof {
        assert(dv.take(i as int) =~= dv);
    }
    r
}

/// Sends a value under `key` to every node, as the data bus would: each
/// node applies it if it is one of its options.
pub fn deliver(nodes: &mut Vec<RipNode>, key: &str, value: &ConfigValue)
    ensures
        final(nodes)@.len() == old(nodes)@.len(),
        forall|i: int|
            0 <= i < old(nodes)@.len() ==> RipNode::received_as(
                #[trigger] old(nodes)@[i],
                final(nodes)@[i],
                key@,
                value@,
            ),
{
    let ghost start = nodes@;
    let mut i: usize = 0;
    while i < nodes.len()
        invariant
            i <= nodes@.len(),
            nodes@.len() == start.len(),
            forall|j: int| i <= j < nodes@.len() ==> nodes@[j] == start[j],
            forall|j: int|
                0 <= j < i ==> RipNode::received_as(#[trigger] start[j], nodes@[j], key@, value@),
        decreases nodes@.len() - i,
    {
        let mut node = nodes.remove(i);
        node.receive(key, value);
        nodes.insert(i, node);
        i = i + 1;
    }
}

} // verus!
