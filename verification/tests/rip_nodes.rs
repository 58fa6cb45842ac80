use rip::config::ConfigValue;
use rip::data_bus::BusRegistry;
use rip::node_kind::NodeKind;
use rip::node_options::NodeCreateInfo;
use rip::rip::node_parser::parse_json;
use rip::rip::nodes::{RipNode, create_nodes, deliver};

const SAMPLE: &str = r#"{
  "starters": {"loader": {"type": "image_load", "path": "${SRC_DIR}/a.png"}},
  "imgproc": {
    "cut": {"type": "crop", "input": "loader.output", "left": 3},
    "pat": {"type": "overlay", "input": "cut.output"}
  },
  "finishers": {"out": {"type": "display", "input": "cut.output", "borderless": true}}
}"#;

#[test]
fn description_nodes_are_created_and_configured() {
    let p = match parse_json(SAMPLE, "/src") {
        Ok(p) => p,
        Err(e) => panic!("refused: {:?}", e),
    };
    let mut registry = BusRegistry::new();
    let mut nodes = create_nodes(&p.description.nodes, &mut registry);
    let kinds: Vec<NodeKind> = nodes.iter().map(|n| n.node_kind()).collect();
    assert_eq!(
        kinds,
        vec![NodeKind::ImageLoad, NodeKind::Crop, NodeKind::Overlay, NodeKind::Display]
    );
    let names: Vec<String> = nodes.iter().map(|n| n.name()).collect();
    assert_eq!(names, vec!["loader", "cut", "pat", "out"]);
    assert_eq!(registry.len(), 1 + 4 + 1);
    for m in &p.description.messages {
        deliver(&mut nodes, &m.key, &m.value);
    }
    match &nodes[0] {
        RipNode::ImageLoad(n) => assert_eq!(n.path(), "/src/a.png"),
        _ => panic!("not an image load node"),
    }
    match &nodes[1] {
        RipNode::Crop(c) => assert_eq!((c.top, c.left), (20, 3)),
        _ => panic!("not a crop node"),
    }
    match &nodes[3] {
        RipNode::Display(d) => assert!(d.fullscreen),
        _ => panic!("not a display node"),
    }
}

#[test]
fn create_each_kind() {
    let mut registry = BusRegistry::new();
    let info = NodeCreateInfo::new("n");
    let node = RipNode::create(NodeKind::Transform, &info, &mut registry);
    assert_eq!(node.node_kind(), NodeKind::Transform);
    assert_eq!(registry.len(), 7);
    let agl = RipNode::create(NodeKind::Agl, &info, &mut registry);
    assert_eq!(agl.name(), "SomeType");
    assert_eq!(registry.len(), 7);
    let mut cc = RipNode::create(NodeKind::ConnectedComponents, &info, &mut registry);
    cc.receive("n::anything", &ConfigValue::U32(1));
    assert_eq!(cc.node_kind(), NodeKind::ConnectedComponents);
}
