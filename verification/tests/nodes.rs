use rip::config::ConfigValue;
use rip::data_bus::BusRegistry;
use rip::gpgpu::{Histogram, HistogramConfig};
use rip::json_doc::JsonNumber;
use rip::node_options::{NodeCreateInfo, is_option};
use rip::rip::processors::{
    AdaptiveThreshold, Arithmetic, ChromaKey, ConnectedComponents, Crop, Monochrome,
    ObjectHighlight, Tonemap, luma_mode_of,
};
use rip::rip::starters::ImageLoad;

fn num(mantissa: u64, exponent: i16) -> JsonNumber {
    JsonNumber { positive: true, mantissa, exponent }
}

fn text(s: &str) -> ConfigValue {
    ConfigValue::Text(s.to_string())
}

#[test]
fn option_keys() {
    assert!(is_option("n::mode", "n", "mode"));
    assert!(!is_option("n::mode", "m", "mode"));
    assert!(!is_option("n:mode", "n", "mode"));
}

#[test]
fn adaptive_threshold_settings() {
    let mut registry = BusRegistry::new();
    let mut n = AdaptiveThreshold::new(&NodeCreateInfo::new("at"), &mut registry);
    assert_eq!(registry.len(), 2);
    assert_eq!(n.data_bus.send(&registry, "at::mode", 2), vec![0]);
    assert_eq!(n.data_bus.send(&registry, "at::radius", 3), vec![1]);
    assert_eq!((n.radius, n.mode), (4, 0));
    n.receive("at::radius", &ConfigValue::U32(9));
    assert_eq!(n.radius, 9);
    n.receive("at::radius", &text("9"));
    n.receive("other::radius", &ConfigValue::U32(1));
    assert_eq!(n.radius, 9);
    n.receive("at::mode", &text("stddev"));
    assert_eq!(n.mode, 0);
    assert_eq!(n.name(), "at");
    assert_eq!(n.node_type(), "monochrome");
}

#[test]
fn arithmetic_modes_and_inputs() {
    let mut registry = BusRegistry::new();
    let mut n = Arithmetic::new(&NodeCreateInfo::new("ar"), &mut registry);
    assert_eq!(n.mode, 0);
    n.set_mode("add");
    assert_eq!(n.mode, 1);
    n.set_mode("multiply");
    assert_eq!(n.mode, 2);
    n.receive("ar::mode", &text("divide"));
    assert_eq!(n.mode, 3);
    n.set_mode("subtract");
    assert_eq!(n.mode, 0);
    n.set_mode("add");
    n.set_mode("bogus");
    assert_eq!(n.mode, 0);
    n.input();
    n.input();
    n.input();
    assert_eq!(n.num_received_inputs, 2);
    n.execute();
    assert_eq!(n.num_received_inputs, 0);
    assert_eq!(n.node_type(), "arithmetic");
}

#[test]
fn chroma_key_settings() {
    let mut registry = BusRegistry::new();
    let mut n = ChromaKey::new(&NodeCreateInfo::new("ck"), &mut registry);
    assert_eq!(registry.len(), 5);
    assert_eq!((n.red, n.green, n.blue), (0, 256, 0));
    assert_eq!(n.low_range, JsonNumber { positive: true, mantissa: 1, exponent: -1 });
    assert_eq!(n.high_range, JsonNumber { positive: true, mantissa: 5, exponent: -1 });
    n.receive("ck::red", &ConfigValue::U32(12));
    n.receive("ck::green", &ConfigValue::U32(13));
    n.receive("ck::blue", &ConfigValue::U32(14));
    n.receive("ck::low_range", &ConfigValue::F32(num(2, -1)));
    n.receive("ck::high_range", &ConfigValue::F32(num(9, -1)));
    assert_eq!((n.red, n.green, n.blue), (12, 13, 14));
    assert_eq!(n.low_range, num(2, -1));
    assert_eq!(n.high_range, num(9, -1));
    assert!(!n.ready());
    n.input();
    n.input();
    n.input();
    assert!(n.ready());
    assert_eq!(n.node_type(), "chroma_key");
}

#[test]
fn connected_components_index_buffer() {
    let mut n = ConnectedComponents::new(&NodeCreateInfo::new("cc"));
    assert_eq!(n.indices_len, 0);
    n.assign(3, 4);
    assert_eq!(n.indices_len, 12);
    assert_eq!(n.node_type(), "connected_components");
}

#[test]
fn crop_margins() {
    let mut registry = BusRegistry::new();
    let mut n = Crop::new(&NodeCreateInfo::new("c"), &mut registry);
    assert_eq!((n.top, n.left, n.bottom, n.right), (20, 20, 20, 20));
    n.receive("c::top", &ConfigValue::U32(1));
    n.receive("c::left", &ConfigValue::U32(2));
    n.receive("c::bottom", &ConfigValue::U32(3));
    n.receive("c::right", &ConfigValue::U32(4));
    n.receive("c::right", &ConfigValue::F32(num(4, 0)));
    assert_eq!((n.top, n.left, n.bottom, n.right), (1, 2, 3, 4));
    assert_eq!(n.node_type(), "crop");
}

#[test]
fn luminance_modes() {
    assert_eq!(luma_mode_of("cie_luma"), 0);
    assert_eq!(luma_mode_of("intensity"), 1);
    assert_eq!(luma_mode_of("i3"), 2);
    assert_eq!(luma_mode_of("x"), 0);
    let mut registry = BusRegistry::new();
    let mut m = Monochrome::new(&NodeCreateInfo::new("m"), &mut registry);
    m.receive("m::mode", &text("i3"));
    assert_eq!(m.mode, 2);
    assert_eq!(m.node_type(), "monochrome");
}

#[test]
fn object_highlight_scales_its_input() {
    let mut registry = BusRegistry::new();
    let mut n = ObjectHighlight::new(&NodeCreateInfo::new("oh"), &mut registry);
    n.receive("oh::mode", &text("intensity"));
    assert_eq!(n.mode, 1);
    n.input(1000, 100);
    assert!(n.has_input);
    assert_eq!((n.scaled_width, n.scaled_height), (256, 100));
    assert_eq!(n.distance_len(), 256 * 100 * 4);
    assert_eq!(n.node_type(), "object_highlight");
}

#[test]
fn tonemap_histogram_bins() {
    let mut registry = BusRegistry::new();
    let mut t = Tonemap::new(&NodeCreateInfo::new("t"), &mut registry);
    assert_eq!(registry.len(), 4);
    assert_eq!(t.histogram.config.num_bins, 64);
    assert_eq!(t.tonecurve_len, 64);
    t.receive("t::num_bins", &ConfigValue::U32(32));
    assert_eq!(t.histogram.config.num_bins, 32);
    assert_eq!(t.tonecurve_len, 32);
    t.input();
    t.set_num_bins(16);
    assert_eq!(t.histogram.config.num_bins, 16);
    assert_eq!(t.tonecurve_len, 32);
    t.execute();
    assert!(t.histogram.calculated);
    t.set_num_bins(8);
    assert_eq!(t.histogram.config.num_bins, 16);
    t.receive("t::max_rad", &ConfigValue::F32(num(3, 0)));
    t.receive("t::min_rad", &ConfigValue::F32(num(1, -2)));
    assert_eq!(t.histogram.config.max_rad, num(3, 0));
    assert_eq!(t.histogram.config.min_rad, num(1, -2));
    t.receive("t::mode", &text("normalized"));
    assert_eq!(t.mode, 0);
    assert_eq!(t.node_type(), "tonemap");
}

#[test]
fn histogram_settings() {
    let cfg = HistogramConfig::default();
    assert_eq!(cfg.num_bins, 64);
    assert_eq!(cfg.min_rad, num(0, 0));
    assert_eq!(cfg.max_rad, num(1, 0));
    let mut h = Histogram::new(cfg);
    assert_eq!(h.histogram_len(), 64);
    h.set_num_bins(10);
    assert_eq!(h.histogram_len(), 10);
    h.calculate();
    h.set_num_bins(20);
    assert_eq!(h.config().num_bins, 10);
    h.set_max_rad(num(2, 0));
    h.set_min_rad(num(1, -1));
    assert_eq!(h.config().max_rad, num(2, 0));
    assert_eq!(h.config().min_rad, num(1, -1));
}

#[test]
fn image_load_loads_once_per_path() {
    let mut registry = BusRegistry::new();
    let mut n = ImageLoad::new(&NodeCreateInfo::new("l"), &mut registry);
    assert_eq!(n.begin_execute(), None);
    n.receive("l::path", &text("a.png"));
    assert_eq!(n.path(), "a.png");
    assert_eq!(n.begin_execute(), Some("a.png".to_string()));
    assert!(n.loaded());
    assert_eq!(n.begin_execute(), None);
    n.set_path("b.png");
    assert!(!n.loaded());
    assert_eq!(n.begin_execute(), Some("b.png".to_string()));
    assert_eq!(n.node_type(), "image_load");
    assert_eq!(n.name(), "l");
}

#[test]
fn option_values_reach_the_node_that_subscribed() {
    let mut registry = BusRegistry::new();
    let a = Crop::new(&NodeCreateInfo::new("a"), &mut registry);
    let b = Crop::new(&NodeCreateInfo::new("b"), &mut registry);
    assert_eq!(a.data_bus.send(&registry, "b::left", 3), vec![5]);
    assert_eq!(b.data_bus.subscription_ids(), vec![4, 5, 6, 7]);
    assert_eq!(a.data_bus.subscription_ids(), vec![0, 1, 2, 3]);
}

#[test]
fn arithmetic_runs_once_per_two_inputs() {
    let mut registry = BusRegistry::new();
    let mut n = Arithmetic::new(&NodeCreateInfo::new("ar"), &mut registry);
    assert!(!n.ready());
    n.input();
    assert!(!n.ready());
    n.input();
    assert!(n.ready());
    n.execute();
    assert!(!n.ready());
    n.input();
    assert!(!n.ready());
    n.input();
    n.input();
    assert!(n.ready());
}
