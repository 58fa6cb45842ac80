//! The finisher nodes of SWSPP: a window that shows the final image and a
//! writer that saves it. The window, the pixel conversion and the file are
//! handled outside the library; these nodes decide when each is used.
use crate::config::{ConfigValue, TAG_BOOL, TAG_STRING, ValueView, option_key};
use crate::data_bus::{BusRegistry, DataBus, LocalView};
use crate::node_options::{NodeCreateInfo, is_option, options_subscribed, options_view, subscribe_options};
use vstd::prelude::*;

verus! {

/// The options of a display node: `borderless`.
pub open spec fn display_options() -> Seq<(Seq<char>, u64)> {
    seq![("borderless"@, TAG_BOOL)]
}

/// A display node: whether its window is borderless, whether the window and
/// the image to show exist, and how many images it has shown.
pub struct Display {
    pub name: String,
    pub fullscreen: bool,
    pub has_window: bool,
    pub has_view: bool,
    pub num_images_blitted: u32,
    pub data_bus: DataBus,
}

impl Display {
    /// The node after a value arrives under `key`.
    pub open spec fn received(self, key: Seq<char>, value: ValueView) -> Self {
        if key == option_key(self.name@, "borderless"@) && value is Bool {
            Display { fullscreen: value->Bool_0, ..self }
        } else {
            self
        }
    }

    /// Creates the node, with no window yet, and subscribes its options.
    pub fn new(info: &NodeCreateInfo, registry: &mut BusRegistry) -> (r: Self)
        requires
            old(registry)@.wf(),
            old(registry)@.counter + 1 <= u64::MAX,
        ensures
            r.name@ == info.name@,
            !r.fullscreen,
            !r.has_window,
            !r.has_view,
            r.num_images_blitted == 0,
            options_subscribed(
                old(registry)@,
                final(registry)@,
                r.data_bus@,
                info.name@,
                display_options(),
            ),
    {
        let opts: Vec<(&str, u64)> = vec![("borderless", TAG_BOOL)];
        proof {
            assert(options_view(opts@) =~= display_options());
        }
        let mut bus = DataBus::default();
        subscribe_options(&mut bus, registry, info.name.as_str(), &opts);
        Display {
            name: info.name.as_str().to_owned(),
            fullscreen: false,
            has_window: false,
            has_view: false,
            num_images_blitted: 0,
            data_bus: bus,
        }
    }

    /// Sets whether the window is borderless.
    pub fn set_fullscreen(&mut self, value: bool)
        ensures
            *final(self) == (Display { fullscreen: value, ..*old(self) }),
    {
        self.fullscreen = value;
    }

    /// Applies a value sent under `key`.
    pub fn receive(&mut self, key: &str, value: &ConfigValue)
        ensures
            *final(self) == old(self).received(key@, value@),
    {
        if let ConfigValue::Bool(b) = value {
            if is_option(key, self.name.as_str(), "borderless") {
                self.set_fullscreen(*b);
            }
        }
    }

    /// Takes its output image: returns whether a window of the image's size,
    /// with one framebuffer, must be created now (only the first time).
    pub fn assign(&mut self) -> (create: bool)
        ensures
            create == !old(self).has_window,
            *final(self) == (Display { has_window: true, ..*old(self) }),
    {
        let create = !self.has_window;
        self.has_window = true;
        create
    }

    /// Takes the image to show.
    pub fn input(&mut self)
        ensures
            *final(self) == (Display { has_view: true, ..*old(self) }),
    {
        self.has_view = true;
    }

    /// Runs the node on a window with `window_views` images: while the window
    /// exists and fewer images than it holds were shown, the image is shown
    /// once more (returns `true`); otherwise nothing happens.
    pub fn execute(&mut self, window_views: usize) -> (blit: bool)
        requires
            window_views <= u32::MAX,
        ensures
            blit == (old(self).has_window && old(self).num_images_blitted < window_views),
            *final(self) == if blit {
                Display { num_images_blitted: (old(self).num_images_blitted + 1) as u32, ..*old(self) }
            } else {
                *old(self)
            },
    {
        if self.has_window && (self.num_images_blitted as usize) < window_views {
            self.num_images_blitted = self.num_images_blitted + 1;
            true
        } else {
            false
        }
    }

    /// The node's name.
    pub fn name(&self) -> (r: String)
        ensures
            r@ == self.name@,
    {
        self.name.as_str().to_owned()
    }

    /// The node's type: `display`.
    pub fn node_type(&self) -> (r: String)
        ensures
            r@ == "display"@,
    {
        "display".to_owned()
    }
}

/// The options of an image write node: `path` (text).
pub open spec fn image_write_options() -> Seq<(Seq<char>, u64)> {
    seq![("path"@, TAG_STRING)]
}

/// An image write node: the path it writes to (`swspp_image_output.png` at
/// first) and whether it holds an image to write.
pub struct ImageWrite {
    name: String,
    path: String,
    has_view: bool,
    data_bus: DataBus,
}

/// The abstract value of an image write node.
pub struct ImageWriteView {
    pub name: Seq<char>,
    pub path: Seq<char>,
    pub has_view: bool,
    pub bus: Seq<LocalView>,
}

impl View for ImageWrite {
    type V = ImageWriteView;

    closed spec fn view(&self) -> ImageWriteView {
        ImageWriteView {
            name: self.name@,
            path: self.path@,
            has_view: self.has_view,
            bus: self.data_bus@,
        }
    }
}

impl ImageWriteView {
    /// The node after a value arrives under `key`.
    pub open spec fn received(self, key: Seq<char>, value: ValueView) -> Self {
        if key == option_key(self.name, "path"@) && value is Text {
            ImageWriteView { path: value->Text_0, ..self }
        } else {
            self
        }
    }
}

impl ImageWrite {
    /// Creates the node and subscribes its options.
    pub fn new(info: &NodeCreateInfo, registry: &mut BusRegistry) -> (r: Self)
        requires
            old(registry)@.wf(),
            old(registry)@.counter + 1 <= u64::MAX,
        ensures
            r@.name == info.name@,
            r@.path == "swspp_image_output.png"@,
            !r@.has_view,
            options_subscribed(
                old(registry)@,
                final(registry)@,
                r@.bus,
                info.name@,
                image_write_options(),
            ),
    {
        let opts: Vec<(&str, u64)> = vec![("path", TAG_STRING)];
        proof {
            assert(options_view(opts@) =~= image_write_options());
        }
        let mut bus = DataBus::default();
        subscribe_options(&mut bus, registry, info.name.as_str(), &opts);
        ImageWrite {
            name: info.name.as_str().to_owned(),
            path: "swspp_image_output.png".to_owned(),
            has_view: false,
            data_bus: bus,
        }
    }

    /// Sets the path to write to.
    pub fn set_path(&mut self, file: &str)
        ensures
            final(self)@ == (ImageWriteView { path: file@, ..old(self)@ }),
    {
        self.path = file.to_owned();
    }

    /// Applies a value sent under `key`.
    pub fn receive(&mut self, key: &str, value: &ConfigValue)
        ensures
            final(self)@ == old(self)@.received(key@, value@),
    {
        if let ConfigValue::Text(s) = value {
            if is_option(key, self.name.as_str(), "path") {
                self.set_path(s.as_str());
            }
        }
    }

    /// Takes the image to write.
    pub fn input(&mut self)
        ensures
            final(self)@ == (ImageWriteView { has_view: true, ..old(self)@ }),
    {
        self.has_view = true;
    }

    /// Runs the node: with an image, returns the path to write it to and
    /// lets the image go; without one, returns `None`.
    pub fn execute(&mut self) -> (r: Option<String>)
        ensures
            old(self)@.has_view ==> {
                &&& r is Some
                &&& r->0@ == old(self)@.path
                &&& final(self)@ == (ImageWriteView { has_view: false, ..old(self)@ })
            },
            !old(self)@.has_view ==> r is None && final(self)@ == old(self)@,
    {
        if self.has_view {
            self.has_view = false;
            Some(self.path.as_str().to_owned())
        } else {
            None
        }
    }

    /// The path written to.
    pub fn path(&self) -> (r: &str)
        ensures
            r@ == self@.path,
    {
        self.path.as_str()
    }

    /// The node's name.
    pub fn name(&self) -> (r: String)
        ensures
            r@ == self@.name,
    {
        self.name.as_str().to_owned()
    }

    /// The node's type: `ImageWrite`.
    pub fn node_type(&self) -> (r: String)
        ensures
            r@ == "ImageWrite"@,
    {
        "ImageWrite".to_owned()
    }
}

} // verus!
