use rip::config::ConfigValue;
use rip::data_bus::BusRegistry;
use rip::json_doc::JsonNumber;
use rip::node_kind::NodeKind;
use rip::node_options::NodeCreateInfo;
use rip::swspp::finishers::{Display, ImageWrite};
use rip::swspp::processors::{AGL, Blur, Inverse, Tonemap, Transform};
use rip::swspp::starters::ImageLoad;

fn num(mantissa: u64, exponent: i16) -> JsonNumber {
    JsonNumber { positive: true, mantissa, exponent }
}

#[test]
fn agl_reports_fixed_names() {
    let n = AGL::new(&NodeCreateInfo::new("agl"));
    assert_eq!(n.name(), "SomeType");
    assert_eq!(n.node_type(), "AGL");
    let m = rip::minimal::AGL::new();
    assert_eq!(m.name(), "SomeType");
    assert_eq!(m.node_type(), "AGL");
}

#[test]
fn minimal_pipeline_knows_agl() {
    let p = rip::minimal::Pipeline::new("config.json");
    assert_eq!(p.node_creation_functions.lookup("agl"), Some(NodeKind::Agl));
    assert_eq!(p.node_creation_functions.lookup("blur"), None);
    assert!(p.execution_order.is_empty());
}

#[test]
fn blur_radius() {
    let mut registry = BusRegistry::new();
    let mut b = Blur::new(&NodeCreateInfo::new("b"), &mut registry);
    assert_eq!(b.radius, 5);
    b.receive("b::radius", &ConfigValue::U32(2));
    assert_eq!(b.radius, 2);
    assert_eq!(b.node_type(), "blur");
    let i = Inverse::new(&NodeCreateInfo::new("i"));
    assert_eq!(i.name(), "i");
    assert_eq!(i.node_type(), "inverse");
}

#[test]
fn swspp_tonemap_histogram() {
    let mut t = Tonemap::new(&NodeCreateInfo::new("t"));
    t.execute();
    assert!(!t.histogram.calculated);
    t.input();
    t.execute();
    assert!(t.histogram.calculated);
    assert_eq!(t.node_type(), "tonemap");
}

#[test]
fn transform_settings() {
    let mut registry = BusRegistry::new();
    let mut t = Transform::new(&NodeCreateInfo::new("tr"), &mut registry);
    assert_eq!(registry.len(), 7);
    assert_eq!(t.scale_x, num(1, 0));
    assert_eq!(t.offset_x, num(0, 0));
    t.receive("tr::off_x", &ConfigValue::F32(num(1, 0)));
    t.receive("tr::off_y", &ConfigValue::F32(num(2, 0)));
    t.receive("tr::shear_x", &ConfigValue::F32(num(3, 0)));
    t.receive("tr::shear_y", &ConfigValue::F32(num(4, 0)));
    t.receive("tr::scale_x", &ConfigValue::F32(num(5, 0)));
    t.receive("tr::scale_y", &ConfigValue::F32(num(6, 0)));
    t.receive("tr::rotation", &ConfigValue::F32(num(90, 0)));
    t.receive("tr::rotation", &ConfigValue::U32(45));
    assert_eq!(
        (t.offset_x, t.offset_y, t.shear_x, t.shear_y, t.scale_x, t.scale_y, t.rotation),
        (num(1, 0), num(2, 0), num(3, 0), num(4, 0), num(5, 0), num(6, 0), num(90, 0))
    );
    assert_eq!(t.node_type(), "transform");
}

#[test]
fn display_window_and_blits() {
    let mut registry = BusRegistry::new();
    let mut d = Display::new(&NodeCreateInfo::new("d"), &mut registry);
    assert!(!d.execute(2));
    d.receive("d::borderless", &ConfigValue::Bool(true));
    assert!(d.fullscreen);
    assert!(d.assign());
    assert!(!d.assign());
    d.input();
    assert!(d.execute(2));
    assert!(d.execute(2));
    assert!(!d.execute(2));
    assert_eq!(d.num_images_blitted, 2);
    assert_eq!(d.node_type(), "display");
}

#[test]
fn image_write_writes_each_image_once() {
    let mut registry = BusRegistry::new();
    let mut w = ImageWrite::new(&NodeCreateInfo::new("w"), &mut registry);
    assert_eq!(w.path(), "swspp_image_output.png");
    assert_eq!(w.execute(), None);
    w.input();
    assert_eq!(w.execute(), Some("swspp_image_output.png".to_string()));
    assert_eq!(w.execute(), None);
    w.receive("w::path", &ConfigValue::Text("out.png".to_string()));
    w.input();
    assert_eq!(w.execute(), Some("out.png".to_string()));
    assert_eq!(w.node_type(), "ImageWrite");
}

#[test]
fn swspp_image_load_asks_to_load_on_path() {
    let mut registry = BusRegistry::new();
    let mut l = ImageLoad::new(&NodeCreateInfo::new("l"), &mut registry);
    assert!(l.receive("l::path", &ConfigValue::Text("x.png".to_string())));
    assert_eq!(l.path(), "x.png");
    assert!(!l.receive("l::other", &ConfigValue::Text("y.png".to_string())));
    assert!(!l.receive("l::path", &ConfigValue::Bool(true)));
    assert_eq!(l.path(), "x.png");
}

#[test]
fn swspp_description_nodes_are_created() {
    let text = r#"{"starters": {"s": {"type": "image_load", "path": "a.png"}},
                   "imgproc": {"b": {"type": "blur", "input": "s.output", "radius": 9}},
                   "finishers": {"w": {"type": "image_write", "input": "b.output"}}}"#;
    let d = match rip::swspp::node_parser::parse_json(text, "/src") {
        Ok(d) => d,
        Err(e) => panic!("refused: {:?}", e),
    };
    let mut registry = BusRegistry::new();
    let mut nodes = rip::swspp::nodes::create_nodes(&d.nodes, &mut registry);
    let names: Vec<String> = nodes.iter().map(|n| n.name()).collect();
    assert_eq!(names, vec!["s", "b", "w"]);
    let mut loads = Vec::new();
    for m in &d.messages {
        for (i, n) in nodes.iter_mut().enumerate() {
            if n.receive(&m.key, &m.value) {
                loads.push(i);
            }
        }
    }
    assert_eq!(loads, vec![0]);
    match &nodes[0] {
        rip::swspp::nodes::SwsppNode::ImageLoad(l) => assert_eq!(l.path(), "a.png"),
        _ => panic!("not an image load node"),
    }
    let agl = rip::swspp::nodes::SwsppNode::create(NodeKind::Agl, &NodeCreateInfo::new("agl"), &mut registry);
    assert_eq!(agl.name(), "SomeType");
}
