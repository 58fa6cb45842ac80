//! The processor nodes of RIP: the settings each keeps, how its options
//! change them, and how it counts the images it is given. The GPU work that
//! reads these settings is done outside the library.
use crate::config::{ConfigValue, TAG_F32, TAG_STRING, TAG_U32, ValueView, option_key};
use crate::data_bus::{BusRegistry, DataBus};
use crate::json_doc::JsonNumber;
use crate::node_options::{
    NodeCreateInfo,
    is_option,
    names_distinct,
    options_subscribed,
    options_view,
    subscribe_options,
};
use crate::gpgpu::{Histogram, HistogramConfig};
use crate::text::str_eq;
use vstd::prelude::*;

verus! {

/// The options of an adaptive threshold node: `mode` (text), `radius`.
pub open spec fn adaptive_threshold_options() -> Seq<(Seq<char>, u64)> {
    seq![("mode"@, TAG_STRING), ("radius"@, TAG_U32)]
}

/// An adaptive threshold node: a radius (4 at first) and a mode (0, the
/// standard deviation, the only one).
pub struct AdaptiveThreshold {
    pub name: String,
    pub radius: u32,
    pub mode: u32,
    pub data_bus: DataBus,
}

impl AdaptiveThreshold {
    /// The node after a value arrives under `key`.
    pub open spec fn received(self, key: Seq<char>, value: ValueView) -> Self {
        if key == option_key(self.name@, "mode"@) && value is Text {
            AdaptiveThreshold { mode: 0, ..self }
        } else if key == option_key(self.name@, "radius"@) && value is U32 {
            AdaptiveThreshold { radius: value->U32_0, ..self }
        } else {
            self
        }
    }

    /// Creates the node and subscribes its options.
    pub fn new(info: &NodeCreateInfo, registry: &mut BusRegistry) -> (r: Self)
        requires
            old(registry)@.wf(),
            old(registry)@.counter + 2 <= u64::MAX,
        ensures
            r.name@ == info.name@,
            r.radius == 4,
            r.mode == 0,
            options_subscribed(
                old(registry)@,
                final(registry)@,
                r.data_bus@,
                info.name@,
                adaptive_threshold_options(),
            ),
    {
        let opts: Vec<(&str, u64)> = vec![("mode", TAG_STRING), ("radius", TAG_U32)];
        proof {
            reveal_strlit("mode");
            reveal_strlit("radius");
            assert(options_view(opts@) =~= adaptive_threshold_options());
            assert("mode"@.len() != "radius"@.len());
        }
        let mut bus = DataBus::default();
        subscribe_options(&mut bus, registry, info.name.as_str(), &opts);
        AdaptiveThreshold { name: info.name.as_str().to_owned(), radius: 4, mode: 0, data_bus: bus }
    }

    /// Sets the radius.
    pub fn set_radius(&mut self, input: u32)
        ensures
            *final(self) == (AdaptiveThreshold { radius: input, ..*old(self) }),
    {
        self.radius = input;
    }

    /// Sets the mode: `stddev`, the only mode, is 0, and any other text
    /// selects it too.
    pub fn set_mode(&mut self, input: &str)
        ensures
            *final(self) == (AdaptiveThreshold { mode: 0, ..*old(self) }),
    {
        self.mode = 0;
    }

    /// Applies a value sent under `key`.
    pub fn receive(&mut self, key: &str, value: &ConfigValue)
        ensures
            *final(self) == old(self).received(key@, value@),
    {
        match value {
            ConfigValue::Text(s) => {
                if is_option(key, self.name.as_str(), "mode") {
                    self.set_mode(s.as_str());
                }
            },
            ConfigValue::U32(v) => {
                if is_option(key, self.name.as_str(), "radius") {
                    self.set_radius(*v);
                }
            },
            _ => {},
        }
    }

    /// The node's name.
    pub fn name(&self) -> (r: String)
        ensures
            r@ == self.name@,
    {
        self.name.as_str().to_owned()
    }

    /// The node's type as it reports it: `monochrome`.
    pub fn node_type(&self) -> (r: String)
        ensures
            r@ == "monochrome"@,
    {
        "monochrome".to_owned()
    }
}

/// The options of an arithmetic node: `mode` (text).
pub open spec fn arithmetic_options() -> Seq<(Seq<char>, u64)> {
    seq![("mode"@, TAG_STRING)]
}

/// The operation an arithmetic mode names: `subtract` 0, `add` 1,
/// `multiply` 2, `divide` 3; any other text 0.
pub open spec fn arithmetic_mode(input: Seq<char>) -> u32 {
    if input == "add"@ {
        1
    } else if input == "multiply"@ {
        2
    } else if input == "divide"@ {
        3
    } else {
        0
    }
}

/// An arithmetic node: an operation on its two input images (0 at first)
/// and the number of inputs given since it last ran.
pub struct Arithmetic {
    pub name: String,
    pub mode: u32,
    pub num_received_inputs: u32,
    pub data_bus: DataBus,
}

impl Arithmetic {
    /// The node after a value arrives under `key`.
    pub open spec fn received(self, key: Seq<char>, value: ValueView) -> Self {
        if key == option_key(self.name@, "mode"@) && value is Text {
            Arithmetic { mode: arithmetic_mode(value->Text_0), ..self }
        } else {
            self
        }
    }

    /// Creates the node and subscribes its options.
    pub fn new(info: &NodeCreateInfo, registry: &mut BusRegistry) -> (r: Self)
        requires
            old(registry)@.wf(),
            old(registry)@.counter + 1 <= u64::MAX,
        ensures
            r.name@ == info.name@,
            r.mode == 0,
            r.num_received_inputs == 0,
            options_subscribed(
                old(registry)@,
                final(registry)@,
                r.data_bus@,
                info.name@,
                arithmetic_options(),
            ),
    {
        let opts: Vec<(&str, u64)> = vec![("mode", TAG_STRING)];
        proof {
            assert(options_view(opts@) =~= arithmetic_options());
        }
        let mut bus = DataBus::default();
        subscribe_options(&mut bus, registry, info.name.as_str(), &opts);
        Arithmetic {
            name: info.name.as_str().to_owned(),
            mode: 0,
            num_received_inputs: 0,
            data_bus: bus,
        }
    }

    /// Sets the operation named by `input`.
    pub fn set_mode(&mut self, input: &str)
        ensures
            *final(self) == (Arithmetic { mode: arithmetic_mode(input@), ..*old(self) }),
    {
        let mode: u32 = if str_eq(input, "add") {
            1
        } else if str_eq(input, "multiply") {
            2
        } else if str_eq(input, "divide") {
            3
        } else {
            0
        };
        self.mode = mode;
    }

    /// Applies a value sent under `key`.
    pub fn receive(&mut self, key: &str, value: &ConfigValue)
        ensures
            *final(self) == old(self).received(key@, value@),
    {
        if let ConfigValue::Text(s) = value {
            if is_option(key, self.name.as_str(), "mode") {
                self.set_mode(s.as_str());
            }
        }
    }

    /// Takes an input image: the first two since the node last ran are
    /// bound, any further one is ignored.
    pub fn input(&mut self)
        ensures
            *final(self) == (Arithmetic {
                num_received_inputs: counted_input(old(self).num_received_inputs),
                ..*old(self)
            }),
    {
        if self.num_received_inputs < 2 {
            self.num_received_inputs = self.num_received_inputs + 1;
        }
    }

    /// Whether the node can run: it needs both inputs.
    pub fn ready(&self) -> (r: bool)
        ensures
            r == (self.num_received_inputs == 2),
    {
        self.num_received_inputs == 2
    }

    /// Runs the operation, which needs both inputs, and starts counting
    /// inputs anew.
    pub fn execute(&mut self)
        requires
            old(self).num_received_inputs == 2,
        ensures
            *final(self) == (Arithmetic { num_received_inputs: 0, ..*old(self) }),
    {
        self.num_received_inputs = 0;
    }

    /// The node's name.
    pub fn name(&self) -> (r: String)
        ensures
            r@ == self.name@,
    {
        self.name.as_str().to_owned()
    }

    /// The node's type: `arithmetic`.
    pub fn node_type(&self) -> (r: String)
        ensures
            r@ == "arithmetic"@,
    {
        "arithmetic".to_owned()
    }
}

/// Takes an input image into a count of at most two.
pub open spec fn counted_input(n: u32) -> u32 {
    if n < 2 {
        (n + 1) as u32
    } else {
        n
    }
}

/// A node that counts its inputs (arithmetic, chroma key) can run only once
/// two inputs have arrived since it last ran: after a run the count is 0, one
/// input does not make it ready, a second does, and the count never passes 2.
pub proof fn lemma_two_inputs_per_run(n: u32)
    ensures
        counted_input(0) != 2,
        counted_input(counted_input(0)) == 2,
        n <= 2 ==> counted_input(n) <= 2,
        n == 2 ==> counted_input(n) == 2,
{
}

/// The options of a chroma key node: `red`, `green`, `blue`, `low_range`,
/// `high_range`.
pub open spec fn chroma_key_options() -> Seq<(Seq<char>, u64)> {
    seq![
        ("red"@, TAG_U32),
        ("green"@, TAG_U32),
        ("blue"@, TAG_U32),
        ("low_range"@, TAG_F32),
        ("high_range"@, TAG_F32),
    ]
}

/// A chroma key node: the key color as channel levels out of 256 (green,
/// 0/256/0, at first), the range of distances keyed out (0.1 to 0.5 at
/// first), and the number of input images given.
pub struct ChromaKey {
    pub name: String,
    pub red: u32,
    pub green: u32,
    pub blue: u32,
    pub low_range: JsonNumber,
    pub high_range: JsonNumber,
    pub num_received_inputs: u32,
    pub data_bus: DataBus,
}

impl ChromaKey {
    /// The node after a value arrives under `key`.
    pub open spec fn received(self, key: Seq<char>, value: ValueView) -> Self {
        if key == option_key(self.name@, "red"@) && value is U32 {
            ChromaKey { red: value->U32_0, ..self }
        } else if key == option_key(self.name@, "green"@) && value is U32 {
            ChromaKey { green: value->U32_0, ..self }
        } else if key == option_key(self.name@, "blue"@) && value is U32 {
            ChromaKey { blue: value->U32_0, ..self }
        } else if key == option_key(self.name@, "low_range"@) && value is F32 {
            ChromaKey { low_range: value->F32_0, ..self }
        } else if key == option_key(self.name@, "high_range"@) && value is F32 {
            ChromaKey { high_range: value->F32_0, ..self }
        } else {
            self
        }
    }

    /// Creates the node and subscribes its options.
    pub fn new(info: &NodeCreateInfo, registry: &mut BusRegistry) -> (r: Self)
        requires
            old(registry)@.wf(),
            old(registry)@.counter + 5 <= u64::MAX,
        ensures
            r.name@ == info.name@,
            r.red == 0 && r.green == 256 && r.blue == 0,
            r.low_range == (JsonNumber { positive: true, mantissa: 1, exponent: -1i16 }),
            r.high_range == (JsonNumber { positive: true, mantissa: 5, exponent: -1i16 }),
            r.num_received_inputs == 0,
            options_subscribed(
                old(registry)@,
                final(registry)@,
                r.data_bus@,
                info.name@,
                chroma_key_options(),
            ),
    {
        let opts: Vec<(&str, u64)> = vec![
            ("red", TAG_U32),
            ("green", TAG_U32),
            ("blue", TAG_U32),
            ("low_range", TAG_F32),
            ("high_range", TAG_F32),
        ];
        proof {
            reveal_strlit("red");
            reveal_strlit("green");
            reveal_strlit("blue");
            reveal_strlit("low_range");
            reveal_strlit("high_range");
            assert(options_view(opts@) =~= chroma_key_options());
            assert(names_distinct(chroma_key_options())) by {
                assert(chroma_key_options()[0].0.len() == 3);
                assert(chroma_key_options()[1].0.len() == 5);
                assert(chroma_key_options()[2].0.len() == 4);
                assert(chroma_key_options()[3].0.len() == 9);
                assert(chroma_key_options()[4].0.len() == 10);
            }
        }
        let mut bus = DataBus::default();
        subscribe_options(&mut bus, registry, info.name.as_str(), &opts);
        ChromaKey {
            name: info.name.as_str().to_owned(),
            red: 0,
            green: 256,
            blue: 0,
            low_range: JsonNumber { positive: true, mantissa: 1, exponent: -1 },
            high_range: JsonNumber { positive: true, mantissa: 5, exponent: -1 },
            num_received_inputs: 0,
            data_bus: bus,
        }
    }

    /// Sets the red level of the key color.
    pub fn set_r(&mut self, v: u32)
        ensures
            *final(self) == (ChromaKey { red: v, ..*old(self) }),
    {
        self.red = v;
    }

    /// Sets the green level of the key color.
    pub fn set_g(&mut self, v: u32)
        ensures
            *final(self) == (ChromaKey { green: v, ..*old(self) }),
    {
        self.green = v;
    }

    /// Sets the blue level of the key color.
    pub fn set_b(&mut self, v: u32)
        ensures
            *final(self) == (ChromaKey { blue: v, ..*old(self) }),
    {
        self.blue = v;
    }

    /// Sets the lower bound of the keyed range.
    pub fn set_low_range(&mut self, v: JsonNumber)
        ensures
            *final(self) == (ChromaKey { low_range: v, ..*old(self) }),
    {
        self.low_range = v;
    }

    /// Sets the upper bound of the keyed range.
    pub fn set_high_range(&mut self, v: JsonNumber)
        ensures
            *final(self) == (ChromaKey { high_range: v, ..*old(self) }),
    {
        self.high_range = v;
    }

    /// Applies a value sent under `key`.
    pub fn receive(&mut self, key: &str, value: &ConfigValue)
        ensures
            *final(self) == old(self).received(key@, value@),
    {
        match value {
            ConfigValue::U32(v) => {
                if is_option(key, self.name.as_str(), "red") {
                    self.set_r(*v);
                } else if is_option(key, self.name.as_str(), "green") {
                    self.set_g(*v);
                } else if is_option(key, self.name.as_str(), "blue") {
                    self.set_b(*v);
                }
            },
            ConfigValue::F32(v) => {
                if is_option(key, self.name.as_str(), "low_range") {
                    self.set_low_range(*v);
                } else if is_option(key, self.name.as_str(), "high_range") {
                    self.set_high_range(*v);
                }
            },
            _ => {},
        }
    }

    /// Takes an input image: the first two are bound, any further one is
    /// ignored.
    pub fn input(&mut self)
        ensures
            *final(self) == (ChromaKey {
                num_received_inputs: counted_input(old(self).num_received_inputs),
                ..*old(self)
            }),
    {
        if self.num_received_inputs < 2 {
            self.num_received_inputs = self.num_received_inputs + 1;
        }
    }

    /// Whether the node can run: it needs both inputs.
    pub fn ready(&self) -> (r: bool)
        ensures
            r == (self.num_received_inputs == 2),
    {
        self.num_received_inputs == 2
    }

    /// The node's name.
    pub fn name(&self) -> (r: String)
        ensures
            r@ == self.name@,
    {
        self.name.as_str().to_owned()
    }

    /// The node's type: `chroma_key`.
    pub fn node_type(&self) -> (r: String)
        ensures
            r@ == "chroma_key"@,
    {
        "chroma_key".to_owned()
    }
}

/// A connected components node: it keeps one component index per pixel of
/// its output image.
pub struct ConnectedComponents {
    pub name: String,
    pub indices_len: usize,
    pub data_bus: DataBus,
}

impl ConnectedComponents {
    /// Creates the node; it has no options.
    pub fn new(info: &NodeCreateInfo) -> (r: Self)
        ensures
            r.name@ == info.name@,
            r.indices_len == 0,
            r.data_bus@ == Seq::<crate::data_bus::LocalView>::empty(),
    {
        ConnectedComponents {
            name: info.name.as_str().to_owned(),
            indices_len: 0,
            data_bus: DataBus::default(),
        }
    }

    /// Takes its output image of `width` by `height` pixels: the index
    /// buffer is sized to one index per pixel.
    pub fn assign(&mut self, width: usize, height: usize)
        requires
            width * height <= usize::MAX,
        ensures
            final(self).name == old(self).name,
            final(self).data_bus == old(self).data_bus,
            final(self).indices_len == width * height,
    {
        self.indices_len = width * height;
    }

    /// The node's name.
    pub fn name(&self) -> (r: String)
        ensures
            r@ == self.name@,
    {
        self.name.as_str().to_owned()
    }

    /// The node's type: `connected_components`.
    pub fn node_type(&self) -> (r: String)
        ensures
            r@ == "connected_components"@,
    {
        "connected_components".to_owned()
    }
}

/// The options of a crop node: `top`, `left`, `bottom`, `right`.
pub open spec fn crop_options() -> Seq<(Seq<char>, u64)> {
    seq![("top"@, TAG_U32), ("left"@, TAG_U32), ("bottom"@, TAG_U32), ("right"@, TAG_U32)]
}

/// A crop node: the margins cut from each side (20 at first).
pub struct Crop {
    pub name: String,
    pub top: u32,
    pub left: u32,
    pub bottom: u32,
    pub right: u32,
    pub data_bus: DataBus,
}

impl Crop {
    /// The node after a value arrives under `key`.
    pub open spec fn received(self, key: Seq<char>, value: ValueView) -> Self {
        if !(value is U32) {
            self
        } else if key == option_key(self.name@, "top"@) {
            Crop { top: value->U32_0, ..self }
        } else if key == option_key(self.name@, "left"@) {
            Crop { left: value->U32_0, ..self }
        } else if key == option_key(self.name@, "bottom"@) {
            Crop { bottom: value->U32_0, ..self }
        } else if key == option_key(self.name@, "right"@) {
            Crop { right: value->U32_0, ..self }
        } else {
            self
        }
    }

    /// Creates the node and subscribes its options.
    pub fn new(info: &NodeCreateInfo, registry: &mut BusRegistry) -> (r: Self)
        requires
            old(registry)@.wf(),
            old(registry)@.counter + 4 <= u64::MAX,
        ensures
            r.name@ == info.name@,
            r.top == 20 && r.left == 20 && r.bottom == 20 && r.right == 20,
            options_subscribed(
                old(registry)@,
                final(registry)@,
                r.data_bus@,
                info.name@,
                crop_options(),
            ),
    {
        let opts: Vec<(&str, u64)> = vec![
            ("top", TAG_U32),
            ("left", TAG_U32),
            ("bottom", TAG_U32),
            ("right", TAG_U32),
        ];
        proof {
            reveal_strlit("top");
            reveal_strlit("left");
            reveal_strlit("bottom");
            reveal_strlit("right");
            assert(options_view(opts@) =~= crop_options());
            assert(names_distinct(crop_options())) by {
                assert(crop_options()[0].0.len() == 3);
                assert(crop_options()[1].0.len() == 4);
                assert(crop_options()[2].0.len() == 6);
                assert(crop_options()[3].0.len() == 5);
            }
        }
        let mut bus = DataBus::default();
        subscribe_options(&mut bus, registry, info.name.as_str(), &opts);
        Crop {
            name: info.name.as_str().to_owned(),
            top: 20,
            left: 20,
            bottom: 20,
            right: 20,
            data_bus: bus,
        }
    }

    /// Sets the top margin.
    pub fn set_top(&mut self, v: u32)
        ensures
            *final(self) == (Crop { top: v, ..*old(self) }),
    {
        self.top = v;
    }

    /// Sets the left margin.
    pub fn set_left(&mut self, v: u32)
        ensures
            *final(self) == (Crop { left: v, ..*old(self) }),
    {
        self.left = v;
    }

    /// Sets the bottom margin.
    pub fn set_bottom(&mut self, v: u32)
        ensures
            *final(self) == (Crop { bottom: v, ..*old(self) }),
    {
        self.bottom = v;
    }

    /// Sets the right margin.
    pub fn set_right(&mut self, v: u32)
        ensures
            *final(self) == (Crop { right: v, ..*old(self) }),
    {
        self.right = v;
    }

    /// Applies a value sent under `key`.
    pub fn receive(&mut self, key: &str, value: &ConfigValue)
        ensures
            *final(self) == old(self).received(key@, value@),
    {
        if let ConfigValue::U32(v) = value {
            if is_option(key, self.name.as_str(), "top") {
                self.set_top(*v);
            } else if is_option(key, self.name.as_str(), "left") {
                self.set_left(*v);
            } else if is_option(key, self.name.as_str(), "bottom") {
                self.set_bottom(*v);
            } else if is_option(key, self.name.as_str(), "right") {
                self.set_right(*v);
            }
        }
    }

    /// The node's name.
    pub fn name(&self) -> (r: String)
        ensures
            r@ == self.name@,
    {
        self.name.as_str().to_owned()
    }

    /// The node's type: `crop`.
    pub fn node_type(&self) -> (r: String)
        ensures
            r@ == "crop"@,
    {
        "crop".to_owned()
    }
}

/// The options of a monochrome or object highlight node: `mode` (text).
pub open spec fn luma_options() -> Seq<(Seq<char>, u64)> {
    seq![("mode"@, TAG_STRING)]
}

/// The luminance a mode names: `cie_luma` 0, `intensity` 1, `i3` 2; any other
/// text 0.
pub open spec fn luma_mode(input: Seq<char>) -> u32 {
    if input == "intensity"@ {
        1
    } else if input == "i3"@ {
        2
    } else {
        0
    }
}

/// The luminance mode named by `input`.
pub fn luma_mode_of(input: &str) -> (r: u32)
    ensures
        r == luma_mode(input@),
{
    if str_eq(input, "intensity") {
        1
    } else if str_eq(input, "i3") {
        2
    } else {
        0
    }
}

/// The luminance names select the numbered luminances that the shaders
/// read: `cie_luma` 0, `intensity` 1, `i3` 2, three distinct modes; any other
/// text selects `cie_luma`.
pub proof fn lemma_luma_names(t: Seq<char>)
    ensures
        luma_mode("cie_luma"@) == 0,
        luma_mode("intensity"@) == 1,
        luma_mode("i3"@) == 2,
        t != "intensity"@ && t != "i3"@ ==> luma_mode(t) == luma_mode("cie_luma"@),
{
    reveal_strlit("cie_luma");
    reveal_strlit("intensity");
    reveal_strlit("i3");
    assert("cie_luma"@.len() != "intensity"@.len());
    assert("cie_luma"@.len() != "i3"@.len());
    assert("intensity"@.len() != "i3"@.len());
}

/// An object highlight node and a monochrome node of the same name and mode
/// read a value the same way: whatever arrives under whatever key, both end
/// with the same mode, so a text under `node::mode` selects for an object
/// highlight node the luminance it selects for a monochrome node (`cie_luma`
/// 0, `intensity` 1, `i3` 2, anything else 0).
pub proof fn lemma_object_highlight_reads_mode_as_monochrome(
    oh: ObjectHighlight,
    m: Monochrome,
    key: Seq<char>,
    value: ValueView,
)
    requires
        oh.name@ == m.name@,
        oh.mode == m.mode,
    ensures
        oh.received(key, value).mode == m.received(key, value).mode,
        key == option_key(oh.name@, "mode"@) && value == ValueView::Text("i3"@) ==> oh.received(
            key,
            value,
        ).mode == 2,
        key == option_key(oh.name@, "mode"@) && value == ValueView::Text("intensity"@)
            ==> oh.received(key, value).mode == 1,
        key == option_key(oh.name@, "mode"@) && value == ValueView::Text("cie_luma"@)
            ==> oh.received(key, value).mode == 0,
        key == option_key(oh.name@, "mode"@) && value is Text ==> oh.received(key, value).mode
            <= 2,
        !(key == option_key(oh.name@, "mode"@) && value is Text) ==> oh.received(key, value)
            == oh,
{
    lemma_luma_names("cie_luma"@);
    if value is Text {
        lemma_luma_names(value->Text_0);
    }
}

/// A monochrome node: the luminance it computes (0 at first).
pub struct Monochrome {
    pub name: String,
    pub mode: u32,
    pub data_bus: DataBus,
}

impl Monochrome {
    /// The node after a value arrives under `key`.
    pub open spec fn received(self, key: Seq<char>, value: ValueView) -> Self {
        if key == option_key(self.name@, "mode"@) && value is Text {
            Monochrome { mode: luma_mode(value->Text_0), ..self }
        } else {
            self
        }
    }

    /// Creates the node and subscribes its options.
    pub fn new(info: &NodeCreateInfo, registry: &mut BusRegistry) -> (r: Self)
        requires
            old(registry)@.wf(),
            old(registry)@.counter + 1 <= u64::MAX,
        ensures
            r.name@ == info.name@,
            r.mode == 0,
            options_subscribed(
                old(registry)@,
                final(registry)@,
                r.data_bus@,
                info.name@,
                luma_options(),
            ),
    {
        let opts: Vec<(&str, u64)> = vec![("mode", TAG_STRING)];
        proof {
            assert(options_view(opts@) =~= luma_options());
        }
        let mut bus = DataBus::default();
        subscribe_options(&mut bus, registry, info.name.as_str(), &opts);
        Monochrome { name: info.name.as_str().to_owned(), mode: 0, data_bus: bus }
    }

    /// Sets the luminance named by `input`.
    pub fn set_mode(&mut self, input: &str)
        ensures
            *final(self) == (Monochrome { mode: luma_mode(input@), ..*old(self) }),
    {
        self.mode = luma_mode_of(input);
    }

    /// Applies a value sent under `key`.
    pub fn receive(&mut self, key: &str, value: &ConfigValue)
        ensures
            *final(self) == old(self).received(key@, value@),
    {
        if let ConfigValue::Text(s) = value {
            if is_option(key, self.name.as_str(), "mode") {
                self.set_mode(s.as_str());
            }
        }
    }

    /// The node's name.
    pub fn name(&self) -> (r: String)
        ensures
            r@ == self.name@,
    {
        self.name.as_str().to_owned()
    }

    /// The node's type: `monochrome`.
    pub fn node_type(&self) -> (r: String)
        ensures
            r@ == "monochrome"@,
    {
        "monochrome".to_owned()
    }
}

/// The largest side of the working images of an object highlight node.
pub const MAX_HIGHLIGHT_DIM: usize = 256;

/// A side of an image, scaled down to at most `MAX_HIGHLIGHT_DIM`.
pub open spec fn scaled_dim(d: usize) -> usize {
    if d > MAX_HIGHLIGHT_DIM {
        MAX_HIGHLIGHT_DIM
    } else {
        d
    }
}

/// An object highlight node: the luminance it compares (0 at first) and the
/// size of the scaled-down copies of its input it works on.
pub struct ObjectHighlight {
    pub name: String,
    pub mode: u32,
    pub has_input: bool,
    pub scaled_width: usize,
    pub scaled_height: usize,
    pub data_bus: DataBus,
}

impl ObjectHighlight {
    /// The node after a value arrives under `key`.
    pub open spec fn received(self, key: Seq<char>, value: ValueView) -> Self {
        if key == option_key(self.name@, "mode"@) && value is Text {
            ObjectHighlight { mode: luma_mode(value->Text_0), ..self }
        } else {
            self
        }
    }

    /// Creates the node and subscribes its options.
    pub fn new(info: &NodeCreateInfo, registry: &mut BusRegistry) -> (r: Self)
        requires
            old(registry)@.wf(),
            old(registry)@.counter + 1 <= u64::MAX,
        ensures
            r.name@ == info.name@,
            r.mode == 0,
            !r.has_input,
            r.scaled_width == 0 && r.scaled_height == 0,
            options_subscribed(
                old(registry)@,
                final(registry)@,
                r.data_bus@,
                info.name@,
                luma_options(),
            ),
    {
        let opts: Vec<(&str, u64)> = vec![("mode", TAG_STRING)];
        proof {
            assert(options_view(opts@) =~= luma_options());
        }
        let mut bus = DataBus::default();
        subscribe_options(&mut bus, registry, info.name.as_str(), &opts);
        ObjectHighlight {
            name: info.name.as_str().to_owned(),
            mode: 0,
            has_input: false,
            scaled_width: 0,
            scaled_height: 0,
            data_bus: bus,
        }
    }

    /// Sets the luminance named by `input`.
    pub fn set_mode(&mut self, input: &str)
        ensures
            *final(self) == (ObjectHighlight { mode: luma_mode(input@), ..*old(self) }),
    {
        self.mode = luma_mode_of(input);
    }

    /// Applies a value sent under `key`.
    pub fn receive(&mut self, key: &str, value: &ConfigValue)
        ensures
            *final(self) == old(self).received(key@, value@),
    {
        if let ConfigValue::Text(s) = value {
            if is_option(key, self.name.as_str(), "mode") {
                self.set_mode(s.as_str());
            }
        }
    }

    /// Takes an input image of `width` by `height` pixels: its working copies
    /// are scaled down to at most `MAX_HIGHLIGHT_DIM` on each side.
    pub fn input(&mut self, width: usize, height: usize)
        ensures
            *final(self) == (ObjectHighlight {
                has_input: true,
                scaled_width: scaled_dim(width),
                scaled_height: scaled_dim(height),
                ..*old(self)
            }),
    {
        self.has_input = true;
        self.scaled_width = if width > MAX_HIGHLIGHT_DIM {
            MAX_HIGHLIGHT_DIM
        } else {
            width
        };
        self.scaled_height = if height > MAX_HIGHLIGHT_DIM {
            MAX_HIGHLIGHT_DIM
        } else {
            height
        };
    }

    /// The number of values of the distance image, four per scaled pixel,
    /// which are reset to the largest float before each frame.
    pub fn distance_len(&self) -> (r: usize)
        requires
            self.scaled_width <= MAX_HIGHLIGHT_DIM,
            self.scaled_height <= MAX_HIGHLIGHT_DIM,
        ensures
            r == self.scaled_width * self.scaled_height * 4,
    {
        proof {
            assert(self.scaled_width * self.scaled_height <= 256 * 256) by (nonlinear_arith)
                requires
                    self.scaled_width <= 256,
                    self.scaled_height <= 256,
            ;
        }
        self.scaled_width * self.scaled_height * 4
    }

    /// The node's name.
    pub fn name(&self) -> (r: String)
        ensures
            r@ == self.name@,
    {
        self.name.as_str().to_owned()
    }

    /// The node's type: `object_highlight`.
    pub fn node_type(&self) -> (r: String)
        ensures
            r@ == "object_highlight"@,
    {
        "object_highlight".to_owned()
    }
}

/// The options of a tone mapping node: `mode` (text), `num_bins`, `max_rad`,
/// `min_rad`.
pub open spec fn tonemap_options() -> Seq<(Seq<char>, u64)> {
    seq![("mode"@, TAG_STRING), ("num_bins"@, TAG_U32), ("max_rad"@, TAG_F32), ("min_rad"@, TAG_F32)]
}

/// A tone mapping node: its mode (0, `normalized`, the only one), the
/// histogram of its input, whether it has an input, and the length of its
/// tone curve, which has one entry per histogram bin.
pub struct Tonemap {
    pub name: String,
    pub mode: u32,
    pub histogram: Histogram,
    pub has_input: bool,
    pub tonecurve_len: usize,
    pub data_bus: DataBus,
}

impl Tonemap {
    /// The node after its number of bins is set to `bins`.
    pub open spec fn with_bins(self, bins: u32) -> Self {
        let hist = if self.histogram.calculated {
            self.histogram
        } else {
            Histogram { config: HistogramConfig { num_bins: bins, ..self.histogram.config }, ..self.histogram }
        };
        Tonemap {
            histogram: hist,
            tonecurve_len: if self.has_input {
                self.tonecurve_len
            } else {
                hist.config.num_bins as usize
            },
            ..self
        }
    }

    /// The node after a value arrives under `key`.
    pub open spec fn received(self, key: Seq<char>, value: ValueView) -> Self {
        if key == option_key(self.name@, "mode"@) && value is Text {
            Tonemap { mode: 0, ..self }
        } else if key == option_key(self.name@, "num_bins"@) && value is U32 {
            self.with_bins(value->U32_0)
        } else if key == option_key(self.name@, "max_rad"@) && value is F32 {
            Tonemap {
                histogram: Histogram {
                    config: HistogramConfig { max_rad: value->F32_0, ..self.histogram.config },
                    ..self.histogram
                },
                ..self
            }
        } else if key == option_key(self.name@, "min_rad"@) && value is F32 {
            Tonemap {
                histogram: Histogram {
                    config: HistogramConfig { min_rad: value->F32_0, ..self.histogram.config },
                    ..self.histogram
                },
                ..self
            }
        } else {
            self
        }
    }

    /// Creates the node, with a histogram of the default configuration and a
    /// tone curve as long as it, and subscribes its options.
    pub fn new(info: &NodeCreateInfo, registry: &mut BusRegistry) -> (r: Self)
        requires
            old(registry)@.wf(),
            old(registry)@.counter + 4 <= u64::MAX,
        ensures
            r.name@ == info.name@,
            r.mode == 0,
            r.histogram.config.num_bins == 64,
            r.histogram.config.min_rad == crate::gpgpu::number_zero(),
            r.histogram.config.max_rad == crate::gpgpu::number_one(),
            !r.histogram.calculated,
            !r.has_input,
            r.tonecurve_len == 64,
            options_subscribed(
                old(registry)@,
                final(registry)@,
                r.data_bus@,
                info.name@,
                tonemap_options(),
            ),
    {
        let opts: Vec<(&str, u64)> = vec![
            ("mode", TAG_STRING),
            ("num_bins", TAG_U32),
            ("max_rad", TAG_F32),
            ("min_rad", TAG_F32),
        ];
        proof {
            reveal_strlit("mode");
            reveal_strlit("num_bins");
            reveal_strlit("max_rad");
            reveal_strlit("min_rad");
            assert(options_view(opts@) =~= tonemap_options());
            assert(names_distinct(tonemap_options())) by {
                assert(tonemap_options()[0].0.len() == 4);
                assert(tonemap_options()[1].0.len() == 8);
                assert(tonemap_options()[2].0.len() == 7);
                assert(tonemap_options()[3].0.len() == 7);
                assert(tonemap_options()[2].0[1] != tonemap_options()[3].0[1]);
            }
        }
        let hist = Histogram::new(HistogramConfig::default());
        let len = hist.histogram_len();
        let mut bus = DataBus::default();
        subscribe_options(&mut bus, registry, info.name.as_str(), &opts);
        Tonemap {
            name: info.name.as_str().to_owned(),
            mode: 0,
            histogram: hist,
            has_input: false,
            tonecurve_len: len,
            data_bus: bus,
        }
    }

    /// Sets the number of histogram bins (ignored once the histogram is
    /// computed); while the node has no input, the tone curve follows the
    /// histogram's length.
    pub fn set_num_bins(&mut self, bins: u32)
        ensures
            *final(self) == old(self).with_bins(bins),
    {
        self.histogram.set_num_bins(bins);
        if !self.has_input {
            self.tonecurve_len = self.histogram.histogram_len();
        }
    }

    /// Sets the upper bound of the histogram's radiance range.
    pub fn set_max_rad(&mut self, max_rad: JsonNumber)
        ensures
            *final(self) == (Tonemap {
                histogram: Histogram {
                    config: HistogramConfig { max_rad, ..old(self).histogram.config },
                    ..old(self).histogram
                },
                ..*old(self)
            }),
    {
        self.histogram.set_max_rad(max_rad);
    }

    /// Sets the lower bound of the histogram's radiance range.
    pub fn set_min_rad(&mut self, min_rad: JsonNumber)
        ensures
            *final(self) == (Tonemap {
                histogram: Histogram {
                    config: HistogramConfig { min_rad, ..old(self).histogram.config },
                    ..old(self).histogram
                },
                ..*old(self)
            }),
    {
        self.histogram.set_min_rad(min_rad);
    }

    /// Sets the mode: `normalized`, the only mode, is 0, and any other text
    /// selects it too.
    pub fn set_mode(&mut self, input: &str)
        ensures
            *final(self) == (Tonemap { mode: 0, ..*old(self) }),
    {
        self.mode = 0;
    }

    /// Applies a value sent under `key`.
    pub fn receive(&mut self, key: &str, value: &ConfigValue)
        ensures
            *final(self) == old(self).received(key@, value@),
    {
        match value {
            ConfigValue::Text(s) => {
                if is_option(key, self.name.as_str(), "mode") {
                    self.set_mode(s.as_str());
                }
            },
            ConfigValue::U32(v) => {
                if is_option(key, self.name.as_str(), "num_bins") {
                    self.set_num_bins(*v);
                }
            },
            ConfigValue::F32(v) => {
                if is_option(key, self.name.as_str(), "max_rad") {
                    self.set_max_rad(*v);
                } else if is_option(key, self.name.as_str(), "min_rad") {
                    self.set_min_rad(*v);
                }
            },
            _ => {},
        }
    }

    /// Takes its input image.
    pub fn input(&mut self)
        ensures
            *final(self) == (Tonemap { has_input: true, ..*old(self) }),
    {
        self.has_input = true;
    }

    /// Runs the node: with an input, its histogram is computed first.
    pub fn execute(&mut self)
        ensures
            *final(self) == if old(self).has_input {
                Tonemap {
                    histogram: Histogram { calculated: true, ..old(self).histogram },
                    ..*old(self)
                }
            } else {
                *old(self)
            },
    {
        if self.has_input {
            self.histogram.calculate();
        }
    }

    /// The node's name.
    pub fn name(&self) -> (r: String)
        ensures
            r@ == self.name@,
    {
        self.name.as_str().to_owned()
    }

    /// The node's type: `tonemap`.
    pub fn node_type(&self) -> (r: String)
        ensures
            r@ == "tonemap"@,
    {
        "tonemap".to_owned()
    }
}

} // verus!
