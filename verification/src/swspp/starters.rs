//! The starter node of SWSPP: it loads an image as soon as it is given a
//! path. Reading and decoding the file is done outside the library.
use crate::config::{ConfigValue, TAG_STRING, ValueView, option_key};
use crate::data_bus::{BusRegistry, DataBus, LocalView};
use crate::node_options::{NodeCreateInfo, is_option, options_subscribed, options_view, subscribe_options};
use vstd::prelude::*;

verus! {

/// The options of an image load node: `path` (text).
pub open spec fn image_load_options() -> Seq<(Seq<char>, u64)> {
    seq![("path"@, TAG_STRING)]
}

/// An image load node: the path of the image it was last asked to load.
pub struct ImageLoad {
    name: String,
    path: String,
    data_bus: DataBus,
}

/// The abstract value of an image load node.
pub struct ImageLoadView {
    pub name: Seq<char>,
    pub path: Seq<char>,
    pub bus: Seq<LocalView>,
}

impl View for ImageLoad {
    type V = ImageLoadView;

    closed spec fn view(&self) -> ImageLoadView {
        ImageLoadView { name: self.name@, path: self.path@, bus: self.data_bus@ }
    }
}

impl ImageLoadView {
    /// The node after a value arrives under `key`.
    pub open spec fn received(self, key: Seq<char>, value: ValueView) -> Self {
        if key == option_key(self.name, "path"@) && value is Text {
            ImageLoadView { path: value->Text_0, ..self }
        } else {
            self
        }
    }
}

impl ImageLoad {
    /// Creates the node, with no path, and subscribes its options.
    pub fn new(info: &NodeCreateInfo, registry: &mut BusRegistry) -> (r: Self)
        requires
            old(registry)@.wf(),
            old(registry)@.counter + 1 <= u64::MAX,
        ensures
            r@.name == info.name@,
            r@.path == Seq::<char>::empty(),
            options_subscribed(
                old(registry)@,
                final(registry)@,
                r@.bus,
                info.name@,
                image_load_options(),
            ),
    {
        let opts: Vec<(&str, u64)> = vec![("path", TAG_STRING)];
        proof {
            assert(options_view(opts@) =~= image_load_options());
        }
        let mut bus = DataBus::default();
        subscribe_options(&mut bus, registry, info.name.as_str(), &opts);
        ImageLoad { name: info.name.as_str().to_owned(), path: String::new(), data_bus: bus }
    }

    /// Records the path of the image to load now.
    pub fn set_path(&mut self, file: &str)
        ensures
            final(self)@ == (ImageLoadView { path: file@, ..old(self)@ }),
    {
        self.path = file.to_owned();
    }

    /// Applies a value sent under `key`; returns whether an image must be
    /// loaded from the new path.
    pub fn receive(&mut self, key: &str, value: &ConfigValue) -> (load: bool)
        ensures
            final(self)@ == old(self)@.received(key@, value@),
            load == (key@ == option_key(old(self)@.name, "path"@) && value@ is Text),
    {
        if let ConfigValue::Text(s) = value {
            if is_option(key, self.name.as_str(), "path") {
                self.set_path(s.as_str());
                return true;
            }
        }
        false
    }

    /// The path of the image last asked for.
    pub fn path(&self) -> (r: &str)
        ensures
            r@ == self@.path,
    {
        self.path.as_str()
    }

    /// The node's name.
    pub fn name(&self) -> (r: String)
        ensures
            r@ == self@.name,
    {
        self.name.as_str().to_owned()
    }

    /// The node's type: `image_load`.
    pub fn node_type(&self) -> (r: String)
        ensures
            r@ == "image_load"@,
    {
        "image_load".to_owned()
    }
}

} // verus!
