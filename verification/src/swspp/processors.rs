//! The processor nodes of SWSPP: the settings each keeps and how its options
//! change them. Transform settings are kept as the JSON numbers they are
//! configured with; the transformation matrix built from them, and all GPU
//! work, is computed outside the library.
use crate::config::{ConfigValue, TAG_F32, TAG_U32, ValueView, option_key};
use crate::data_bus::{BusRegistry, DataBus, LocalView};
use crate::gpgpu::{Histogram, HistogramConfig};
use crate::json_doc::JsonNumber;
use crate::node_options::{
    NodeCreateInfo,
    is_option,
    names_distinct,
    options_subscribed,
    options_view,
    subscribe_options,
};
use vstd::prelude::*;

verus! {

/// The AGL node, which does no work yet and reports the name `SomeType`.
pub struct AGL {
    pub data_bus: DataBus,
}

impl AGL {
    /// Creates the node; it subscribes nothing.
    pub fn new(info: &NodeCreateInfo) -> (r: Self)
        ensures
            r.data_bus@ == Seq::<LocalView>::empty(),
    {
        AGL { data_bus: DataBus::default() }
    }

    /// The name the node reports: `SomeType`.
    pub fn name(&self) -> (r: String)
        ensures
            r@ == "SomeType"@,
    {
        "SomeType".to_owned()
    }

    /// The node's type: `AGL`.
    pub fn node_type(&self) -> (r: String)
        ensures
            r@ == "AGL"@,
    {
        "AGL".to_owned()
    }
}

/// The options of a blur node: `radius`.
pub open spec fn blur_options() -> Seq<(Seq<char>, u64)> {
    seq![("radius"@, TAG_U32)]
}

/// A blur node: its radius (5 at first).
pub struct Blur {
    pub name: String,
    pub radius: u32,
    pub data_bus: DataBus,
}

impl Blur {
    /// The node after a value arrives under `key`.
    pub open spec fn received(self, key: Seq<char>, value: ValueView) -> Self {
        if key == option_key(self.name@, "radius"@) && value is U32 {
            Blur { radius: value->U32_0, ..self }
        } else {
            self
        }
    }

    /// Creates the node and subscribes its options.
    pub fn new(info: &NodeCreateInfo, registry: &mut BusRegistry) -> (r: Self)
        requires
            old(registry)@.wf(),
            old(registry)@.counter + 1 <= u64::MAX,
        ensures
            r.name@ == info.name@,
            r.radius == 5,
            options_subscribed(
                old(registry)@,
                final(registry)@,
                r.data_bus@,
                info.name@,
                blur_options(),
            ),
    {
        let opts: Vec<(&str, u64)> = vec![("radius", TAG_U32)];
        proof {
            assert(options_view(opts@) =~= blur_options());
        }
        let mut bus = DataBus::default();
        subscribe_options(&mut bus, registry, info.name.as_str(), &opts);
        Blur { name: info.name.as_str().to_owned(), radius: 5, data_bus: bus }
    }

    /// Sets the radius.
    pub fn set_radius(&mut self, radius: u32)
        ensures
            *final(self) == (Blur { radius, ..*old(self) }),
    {
        self.radius = radius;
    }

    /// Applies a value sent under `key`.
    pub fn receive(&mut self, key: &str, value: &ConfigValue)
        ensures
            *final(self) == old(self).received(key@, value@),
    {
        if let ConfigValue::U32(v) = value {
            if is_option(key, self.name.as_str(), "radius") {
                self.set_radius(*v);
            }
        }
    }

    /// The node's name.
    pub fn name(&self) -> (r: String)
        ensures
            r@ == self.name@,
    {
        self.name.as_str().to_owned()
    }

    /// The node's type: `blur`.
    pub fn node_type(&self) -> (r: String)
        ensures
            r@ == "blur"@,
    {
        "blur".to_owned()
    }
}

/// An inverse node; it has no options.
pub struct Inverse {
    pub name: String,
    pub data_bus: DataBus,
}

impl Inverse {
    /// Creates the node.
    pub fn new(info: &NodeCreateInfo) -> (r: Self)
        ensures
            r.name@ == info.name@,
            r.data_bus@ == Seq::<LocalView>::empty(),
    {
        Inverse { name: info.name.as_str().to_owned(), data_bus: DataBus::default() }
    }

    /// The node's name.
    pub fn name(&self) -> (r: String)
        ensures
            r@ == self.name@,
    {
        self.name.as_str().to_owned()
    }

    /// The node's type: `inverse`.
    pub fn node_type(&self) -> (r: String)
        ensures
            r@ == "inverse"@,
    {
        "inverse".to_owned()
    }
}

/// A tone mapping node: its mode (0), the histogram of its input, and
/// whether it has an input. It has no options.
pub struct Tonemap {
    pub name: String,
    pub mode: u32,
    pub histogram: Histogram,
    pub has_input: bool,
    pub data_bus: DataBus,
}

impl Tonemap {
    /// Creates the node with a histogram of the default configuration.
    pub fn new(info: &NodeCreateInfo) -> (r: Self)
        ensures
            r.name@ == info.name@,
            r.mode == 0,
            r.histogram.config.num_bins == 64,
            r.histogram.config.min_rad == crate::gpgpu::number_zero(),
            r.histogram.config.max_rad == crate::gpgpu::number_one(),
            !r.histogram.calculated,
            !r.has_input,
            r.data_bus@ == Seq::<LocalView>::empty(),
    {
        Tonemap {
            name: info.name.as_str().to_owned(),
            mode: 0,
            histogram: Histogram::new(HistogramConfig::default()),
            has_input: false,
            data_bus: DataBus::default(),
        }
    }

    /// Takes its input image.
    pub fn input(&mut self)
        ensures
            *final(self) == (Tonemap { has_input: true, ..*old(self) }),
    {
        self.has_input = true;
    }

    /// Runs the node: with an input, its histogram is computed.
    pub fn execute(&mut self)
        ensures
            *final(self) == if old(self).has_input {
                Tonemap {
                    histogram: Histogram { calculated: true, ..old(self).histogram },
                    ..*old(self)
                }
            } else {
                *old(self)
            },
    {
        if self.has_input {
            self.histogram.calculate();
        }
    }

    /// The node's name.
    pub fn name(&self) -> (r: String)
        ensures
            r@ == self.name@,
    {
        self.name.as_str().to_owned()
    }

    /// The node's type: `tonemap`.
    pub fn node_type(&self) -> (r: String)
        ensures
            r@ == "tonemap"@,
    {
        "tonemap".to_owned()
    }
}

/// The options of a transform node, in the order they are subscribed:
/// `off_x`, `off_y`, `shear_x`, `shear_y`, `scale_x`, `scale_y`, `rotation`.
pub open spec fn transform_options() -> Seq<(Seq<char>, u64)> {
    seq![
        ("off_x"@, TAG_F32),
        ("off_y"@, TAG_F32),
        ("shear_x"@, TAG_F32),
        ("shear_y"@, TAG_F32),
        ("scale_x"@, TAG_F32),
        ("scale_y"@, TAG_F32),
        ("rotation"@, TAG_F32),
    ]
}

/// The JSON number zero.
pub open spec fn zero() -> JsonNumber {
    JsonNumber { positive: true, mantissa: 0, exponent: 0 }
}

/// The JSON number one.
pub open spec fn one() -> JsonNumber {
    JsonNumber { positive: true, mantissa: 1, exponent: 0 }
}

/// A transform node: an offset (0, 0 at first), a scale (1, 1), a shear
/// (0, 0) and a rotation in degrees (0).
pub struct Transform {
    pub name: String,
    pub offset_x: JsonNumber,
    pub offset_y: JsonNumber,
    pub scale_x: JsonNumber,
    pub scale_y: JsonNumber,
    pub shear_x: JsonNumber,
    pub shear_y: JsonNumber,
    pub rotation: JsonNumber,
    pub data_bus: DataBus,
}

impl Transform {
    /// The node after a value arrives under `key`.
    pub open spec fn received(self, key: Seq<char>, value: ValueView) -> Self {
        if !(value is F32) {
            self
        } else if key == option_key(self.name@, "off_x"@) {
            Transform { offset_x: value->F32_0, ..self }
        } else if key == option_key(self.name@, "off_y"@) {
            Transform { offset_y: value->F32_0, ..self }
        } else if key == option_key(self.name@, "shear_x"@) {
            Transform { shear_x: value->F32_0, ..self }
        } else if key == option_key(self.name@, "shear_y"@) {
            Transform { shear_y: value->F32_0, ..self }
        } else if key == option_key(self.name@, "scale_x"@) {
            Transform { scale_x: value->F32_0, ..self }
        } else if key == option_key(self.name@, "scale_y"@) {
            Transform { scale_y: value->F32_0, ..self }
        } else if key == option_key(self.name@, "rotation"@) {
            Transform { rotation: value->F32_0, ..self }
        } else {
            self
        }
    }

    /// Creates the node with the identity transformation and subscribes its
    /// options.
    pub fn new(info: &NodeCreateInfo, registry: &mut BusRegistry) -> (r: Self)
        requires
            old(registry)@.wf(),
            old(registry)@.counter + 7 <= u64::MAX,
        ensures
            r.name@ == info.name@,
            r.offset_x == zero() && r.offset_y == zero(),
            r.scale_x == one() && r.scale_y == one(),
            r.shear_x == zero() && r.shear_y == zero(),
            r.rotation == zero(),
            options_subscribed(
                old(registry)@,
                final(registry)@,
                r.data_bus@,
                info.name@,
                transform_options(),
            ),
    {
        let opts: Vec<(&str, u64)> = vec![
            ("off_x", TAG_F32),
            ("off_y", TAG_F32),
            ("shear_x", TAG_F32),
            ("shear_y", TAG_F32),
            ("scale_x", TAG_F32),
            ("scale_y", TAG_F32),
            ("rotation", TAG_F32),
        ];
        proof {
            reveal_strlit("off_x");
            reveal_strlit("off_y");
            reveal_strlit("shear_x");
            reveal_strlit("shear_y");
            reveal_strlit("scale_x");
            reveal_strlit("scale_y");
            reveal_strlit("rotation");
            let o = transform_options();
            assert(options_view(opts@) =~= o);
            assert(names_distinct(o)) by {
                assert(o[0].0.len() == 5 && o[1].0.len() == 5);
                assert(o[2].0.len() == 7 && o[3].0.len() == 7);
                assert(o[4].0.len() == 7 && o[5].0.len() == 7);
                assert(o[6].0.len() == 8);
                assert(o[0].0[4] != o[1].0[4]);
                assert(o[2].0[6] != o[3].0[6]);
                assert(o[4].0[6] != o[5].0[6]);
                assert(o[2].0[1] != o[4].0[1]);
                assert(o[2].0[1] != o[5].0[1]);
                assert(o[3].0[1] != o[4].0[1]);
                assert(o[3].0[1] != o[5].0[1]);
            }
        }
        let mut bus = DataBus::default();
        subscribe_options(&mut bus, registry, info.name.as_str(), &opts);
        Transform {
            name: info.name.as_str().to_owned(),
            offset_x: JsonNumber { positive: true, mantissa: 0, exponent: 0 },
            offset_y: JsonNumber { positive: true, mantissa: 0, exponent: 0 },
            scale_x: JsonNumber { positive: true, mantissa: 1, exponent: 0 },
            scale_y: JsonNumber { positive: true, mantissa: 1, exponent: 0 },
            shear_x: JsonNumber { positive: true, mantissa: 0, exponent: 0 },
            shear_y: JsonNumber { positive: true, mantissa: 0, exponent: 0 },
            rotation: JsonNumber { positive: true, mantissa: 0, exponent: 0 },
            data_bus: bus,
        }
    }

    /// Sets the horizontal offset.
    pub fn set_offset_x(&mut self, val: JsonNumber)
        ensures
            *final(self) == (Transform { offset_x: val, ..*old(self) }),
    {
        self.offset_x = val;
    }

    /// Sets the vertical offset.
    pub fn set_offset_y(&mut self, val: JsonNumber)
        ensures
            *final(self) == (Transform { offset_y: val, ..*old(self) }),
    {
        self.offset_y = val;
    }

    /// Sets the horizontal scale.
    pub fn set_scale_x(&mut self, val: JsonNumber)
        ensures
            *final(self) == (Transform { scale_x: val, ..*old(self) }),
    {
        self.scale_x = val;
    }

    /// Sets the vertical scale.
    pub fn set_scale_y(&mut self, val: JsonNumber)
        ensures
            *final(self) == (Transform { scale_y: val, ..*old(self) }),
    {
        self.scale_y = val;
    }

    /// Sets the horizontal shear.
    pub fn set_shear_x(&mut self, val: JsonNumber)
        ensures
            *final(self) == (Transform { shear_x: val, ..*old(self) }),
    {
        self.shear_x = val;
    }

    /// Sets the vertical shear.
    pub fn set_shear_y(&mut self, val: JsonNumber)
        ensures
            *final(self) == (Transform { shear_y: val, ..*old(self) }),
    {
        self.shear_y = val;
    }

    /// Sets the rotation, in degrees.
    pub fn set_rotation(&mut self, val: JsonNumber)
        ensures
            *final(self) == (Transform { rotation: val, ..*old(self) }),
    {
        self.rotation = val;
    }

    /// Applies a value sent under `key`.
    pub fn receive(&mut self, key: &str, value: &ConfigValue)
        ensures
            *final(self) == old(self).received(key@, value@),
    {
        if let ConfigValue::F32(v) = value {
            let name = self.name.as_str();
            if is_option(key, name, "off_x") {
                self.set_offset_x(*v);
            } else if is_option(key, self.name.as_str(), "off_y") {
                self.set_offset_y(*v);
            } else if is_option(key, self.name.as_str(), "shear_x") {
                self.set_shear_x(*v);
            } else if is_option(key, self.name.as_str(), "shear_y") {
                self.set_shear_y(*v);
            } else if is_option(key, self.name.as_str(), "scale_x") {
                self.set_scale_x(*v);
            } else if is_option(key, self.name.as_str(), "scale_y") {
                self.set_scale_y(*v);
            } else if is_option(key, self.name.as_str(), "rotation") {
                self.set_rotation(*v);
            }
        }
    }

    /// The node's name.
    pub fn name(&self) -> (r: String)
        ensures
            r@ == self.name@,
    {
        self.name.as_str().to_owned()
    }

    /// The node's type: `transform`.
    pub fn node_type(&self) -> (r: String)
        ensures
            r@ == "transform"@,
    {
        "transform".to_owned()
    }
}

} // verus!
