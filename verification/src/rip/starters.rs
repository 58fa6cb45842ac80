//! The starter node of RIP: it loads an image from a file once per path it
//! is given. Reading and decoding the file is done outside the library.
use crate::config::{ConfigValue, TAG_STRING, ValueView, option_key};
use crate::data_bus::{BusRegistry, DataBus, LocalView};
use crate::node_options::{NodeCreateInfo, is_option, options_subscribed, options_view, subscribe_options};
use vstd::prelude::*;

verus! {

/// The options of an image load node: `path` (text).
pub open spec fn image_load_options() -> Seq<(Seq<char>, u64)> {
    seq![("path"@, TAG_STRING)]
}

/// An image load node: the path of the image and whether it is loaded.
pub struct ImageLoad {
    name: String,
    path: String,
    loaded: bool,
    data_bus: DataBus,
}

/// The abstract value of an image load node.
pub struct ImageLoadView {
    pub name: Seq<char>,
    pub path: Seq<char>,
    pub loaded: bool,
    pub bus: Seq<LocalView>,
}

impl View for ImageLoad {
    type V = ImageLoadView;

    closed spec fn view(&self) -> ImageLoadView {
        ImageLoadView {
            name: self.name@,
            path: self.path@,
            loaded: self.loaded,
            bus: self.data_bus@,
        }
    }
}

impl ImageLoadView {
    /// The node after a value arrives under `key`.
    pub open spec fn received(self, key: Seq<char>, value: ValueView) -> Self {
        if key == option_key(self.name, "path"@) && value is Text {
            ImageLoadView { path: value->Text_0, loaded: false, ..self }
        } else {
            self
        }
    }

    /// Whether a run of the node loads an image: a path is set and its image
    /// is not loaded yet.
    pub open spec fn loads(self) -> bool {
        self.path.len() > 0 && !self.loaded
    }

    /// The node after a run.
    pub open spec fn executed(self) -> Self {
        if self.loads() {
            ImageLoadView { loaded: true, ..self }
        } else {
            self
        }
    }
}

/// Running an image load node again loads nothing and changes nothing: any
/// number of runs after the first has the effect of one run, until a new path
/// arrives.
pub proof fn lemma_execute_idempotent(v: ImageLoadView)
    ensures
        !v.executed().loads(),
        v.executed().executed() == v.executed(),
{
}

/// A new path is loaded on the next run.
pub proof fn lemma_new_path_loads(v: ImageLoadView, file: Seq<char>)
    requires
        file.len() > 0,
    ensures
        (ImageLoadView { path: file, loaded: false, ..v }).loads(),
        (ImageLoadView { path: file, loaded: false, ..v }).executed().loaded,
{
}

impl ImageLoad {
    /// Creates the node, with no path, and subscribes its options.
    pub fn new(info: &NodeCreateInfo, registry: &mut BusRegistry) -> (r: Self)
        requires
            old(registry)@.wf(),
            old(registry)@.counter + 1 <= u64::MAX,
        ensures
            r@.name == info.name@,
            r@.path == Seq::<char>::empty(),
            !r@.loaded,
            options_subscribed(
                old(registry)@,
                final(registry)@,
                r@.bus,
                info.name@,
                image_load_options(),
            ),
    {
        let opts: Vec<(&str, u64)> = vec![("path", TAG_STRING)];
        proof {
            assert(options_view(opts@) =~= image_load_options());
        }
        let mut bus = DataBus::default();
        subscribe_options(&mut bus, registry, info.name.as_str(), &opts);
        ImageLoad {
            name: info.name.as_str().to_owned(),
            path: String::new(),
            loaded: false,
            data_bus: bus,
        }
    }

    /// Sets the path of the image; it is loaded on the next run.
    pub fn set_path(&mut self, file: &str)
        ensures
            final(self)@ == (ImageLoadView { path: file@, loaded: false, ..old(self)@ }),
    {
        self.path = file.to_owned();
        self.loaded = false;
    }

    /// Applies a value sent under `key`.
    pub fn receive(&mut self, key: &str, value: &ConfigValue)
        ensures
            final(self)@ == old(self)@.received(key@, value@),
    {
        if let ConfigValue::Text(s) = value {
            if is_option(key, self.name.as_str(), "path") {
                self.set_path(s.as_str());
            }
        }
    }

    /// Runs the node: when a path is set and its image is not loaded yet,
    /// returns the path to load and counts the image as loaded, whether or
    /// not the load succeeds; otherwise returns `None`.
    pub fn begin_execute(&mut self) -> (r: Option<String>)
        ensures
            old(self)@.path.len() > 0 && !old(self)@.loaded ==> {
                &&& r is Some
                &&& r->0@ == old(self)@.path
                &&& final(self)@ == (ImageLoadView { loaded: true, ..old(self)@ })
            },
            !(old(self)@.path.len() > 0 && !old(self)@.loaded) ==> {
                &&& r is None
                &&& final(self)@ == old(self)@
            },
            r is Some <==> old(self)@.loads(),
            final(self)@ == old(self)@.executed(),
    {
        if !self.path.as_str().is_empty() && !self.loaded {
            self.loaded = true;
            Some(self.path.as_str().to_owned())
        } else {
            None
        }
    }

    /// The path of the image.
    pub fn path(&self) -> (r: &str)
        ensures
            r@ == self@.path,
    {
        self.path.as_str()
    }

    /// Whether the image is loaded.
    pub fn loaded(&self) -> (r: bool)
        ensures
            r == self@.loaded,
    {
        self.loaded
    }

    /// The node's name.
    pub fn name(&self) -> (r: String)
        ensures
            r@ == self@.name,
    {
        self.name.as_str().to_owned()
    }

    /// The node's type: `image_load`.
    pub fn node_type(&self) -> (r: String)
        ensures
            r@ == "image_load"@,
    {
        "image_load".to_owned()
    }
}

} // verus!
