use rip::config::{ConfigMessage, ConfigValue, get_reserved_strings};
use rip::error::ConfigError;
use rip::json_doc::{Json, parse_json_text};
use rip::node_kind::NodeKind;
use rip::rip::node_parser::{configure_nodes, parse_json};
use rip::text::{concat_str, replace_all_exec, str_eq};

const SAMPLE: &str = r#"{
  "dimensions": [640, 480],
  "network": {"ip": "0.0.0.0", "port": "6000"},
  "starters": {"loader": {"type": "image_load", "path": "${SRC_DIR}/img.png"}},
  "imgproc": {
    "mono": {"type": "monochrome", "input": "loader.output", "mode": "intensity"},
    "cut": {"type": "crop", "input": "mono.output", "top": 5}
  },
  "finishers": {"out": {"type": "display", "input": "cut.output", "borderless": true}}
}"#;

fn show(m: &ConfigMessage) -> String {
    let v = match &m.value {
        ConfigValue::Bool(b) => format!("bool {}", b),
        ConfigValue::Text(s) => format!("text {}", s),
        ConfigValue::U32(u) => format!("u32 {}", u),
        ConfigValue::F32(n) => format!("f32 {} {} {}", n.positive, n.mantissa, n.exponent),
    };
    format!("{} = {}", m.key, v)
}

fn err_of(text: &str) -> ConfigError {
    match parse_json(text, "/src") {
        Ok(_) => panic!("description accepted"),
        Err(e) => e,
    }
}

#[test]
fn sample_description_is_read() {
    let p = match parse_json(SAMPLE, "/src") {
        Ok(p) => p,
        Err(e) => panic!("refused: {:?}", e),
    };
    assert_eq!(p.dimensions, (640, 480));
    assert_eq!(p.network, ("0.0.0.0".to_string(), "6000".to_string()));
    let names: Vec<(String, NodeKind)> =
        p.description.nodes.iter().map(|n| (n.name.clone(), n.kind)).collect();
    assert_eq!(
        names,
        vec![
            ("loader".to_string(), NodeKind::ImageLoad),
            ("mono".to_string(), NodeKind::Monochrome),
            ("cut".to_string(), NodeKind::Crop),
            ("out".to_string(), NodeKind::Display),
        ]
    );
    assert_eq!(p.description.execution_order, vec![0, 1, 2, 3]);
    assert_eq!(p.description.connections, vec![(1, vec![0]), (2, vec![1]), (3, vec![2])]);
    let messages: Vec<String> = p.description.messages.iter().map(show).collect();
    assert_eq!(
        messages,
        vec![
            "loader::path = text /src/img.png".to_string(),
            "mono::input = text loader.output".to_string(),
            "mono::mode = text intensity".to_string(),
            "cut::input = text mono.output".to_string(),
            "cut::top = u32 5".to_string(),
            "cut::top = f32 true 5 0".to_string(),
            "out::input = text cut.output".to_string(),
            "out::borderless = bool true".to_string(),
        ]
    );
}

#[test]
fn defaults_for_dimensions_and_network() {
    let p = match parse_json(r#"{"starters": {}, "finishers": {}}"#, "/src") {
        Ok(p) => p,
        Err(e) => panic!("refused: {:?}", e),
    };
    assert_eq!(p.dimensions, (1280, 1024));
    assert_eq!(p.network, ("127.0.0.1".to_string(), "5555".to_string()));
    assert!(p.description.nodes.is_empty());
    assert!(p.description.execution_order.is_empty());
}

#[test]
fn nodes_are_ordered_after_their_inputs() {
    let text = r#"{
      "starters": {"a": {"type": "image_load"}, "b": {"type": "image_load"}},
      "imgproc": {
        "late": {"type": "arithmetic", "input": ["early.output", "b.output"]},
        "early": {"type": "tonemap", "input": "a.output"}
      },
      "finishers": {"w": {"type": "image_write", "input": "late.output"}}
    }"#;
    let p = match parse_json(text, "/src") {
        Ok(p) => p,
        Err(e) => panic!("refused: {:?}", e),
    };
    assert_eq!(p.description.execution_order, vec![0, 1, 3, 2, 4]);
    assert_eq!(p.description.connections, vec![(2, vec![0]), (3, vec![3, 1]), (4, vec![2])]);
}

#[test]
fn unknown_types_create_no_node() {
    let text = r#"{"starters": {"s": {"type": "image_load"}, "x": {"type": "nothing"}},
                   "finishers": {}}"#;
    let p = match parse_json(text, "/src") {
        Ok(p) => p,
        Err(e) => panic!("refused: {:?}", e),
    };
    assert_eq!(p.description.nodes.len(), 1);
    assert_eq!(p.description.execution_order, vec![0]);
}

#[test]
fn error_syntax() {
    assert_eq!(err_of("{"), ConfigError::Syntax);
}

#[test]
fn error_no_starters() {
    assert_eq!(err_of(r#"{"finishers": {}}"#), ConfigError::NoStarters);
}

#[test]
fn error_no_finishers() {
    assert_eq!(err_of(r#"{"starters": {}}"#), ConfigError::NoFinishers);
}

#[test]
fn error_bad_dimensions() {
    assert_eq!(
        err_of(r#"{"starters": {}, "finishers": {}, "dimensions": [1.5, 2]}"#),
        ConfigError::BadDimensions
    );
    assert_eq!(
        err_of(r#"{"starters": {}, "finishers": {}, "dimensions": 5}"#),
        ConfigError::BadDimensions
    );
}

#[test]
fn error_bad_network() {
    assert_eq!(
        err_of(r#"{"starters": {}, "finishers": {}, "network": {"ip": 5}}"#),
        ConfigError::BadNetwork
    );
}

#[test]
fn error_bad_type() {
    assert_eq!(
        err_of(r#"{"starters": {"s": {"type": 3}}, "finishers": {}}"#),
        ConfigError::BadType
    );
}

#[test]
fn error_missing_input() {
    assert_eq!(
        err_of(r#"{"starters": {}, "imgproc": {"m": {"type": "monochrome"}}, "finishers": {}}"#),
        ConfigError::MissingInput
    );
}

#[test]
fn error_unknown_node() {
    assert_eq!(
        err_of(r#"{"starters": {"s": {"type": "image_load"}},
                   "imgproc": {"m": {"type": "nothing", "input": "s.output"},
                               "k": {"type": "monochrome", "input": "s.output"}},
                   "finishers": {}}"#),
        ConfigError::UnknownNode
    );
}

#[test]
fn error_bad_input() {
    assert_eq!(
        err_of(r#"{"starters": {"s": {"type": "image_load"}},
                   "imgproc": {"m": {"type": "monochrome", "input": "s"}}, "finishers": {}}"#),
        ConfigError::BadInput
    );
}

#[test]
fn error_unknown_parent() {
    assert_eq!(
        err_of(r#"{"starters": {"s": {"type": "image_load"}},
                   "finishers": {"f1": {"type": "display", "input": "s.output"},
                                 "f2": {"type": "image_write", "input": "f1.output"}}}"#),
        ConfigError::UnknownParent
    );
}

#[test]
fn error_unschedulable() {
    assert_eq!(
        err_of(r#"{"starters": {},
                   "imgproc": {"m": {"type": "monochrome", "input": "x.output"}}, "finishers": {}}"#),
        ConfigError::Unschedulable
    );
}

#[test]
fn swspp_reader_tables_and_limits() {
    let text = r#"{"starters": {"s": {"type": "image_load", "n": 3, "p": "${SRC_DIR}"}},
                   "imgproc": {"inv": {"type": "inverse", "input": "s.output"}},
                   "finishers": {"w": {"type": "image_write", "input": "inv.output"}}}"#;
    let d = match rip::swspp::node_parser::parse_json(text, "/src") {
        Ok(d) => d,
        Err(e) => panic!("refused: {:?}", e),
    };
    let names: Vec<String> = d.nodes.iter().map(|n| n.name.clone()).collect();
    assert_eq!(names, vec!["s".to_string(), "inv".to_string(), "w".to_string()]);
    let messages: Vec<String> = d.messages.iter().map(show).collect();
    assert_eq!(
        messages,
        vec![
            "s::p = text /src".to_string(),
            "inv::input = text s.output".to_string(),
            "w::input = text inv.output".to_string(),
        ]
    );
    let agl = r#"{"starters": {"s": {"type": "image_load"}},
                  "imgproc": {"agl": {"input": "s.output"}}, "finishers": {}}"#;
    match rip::swspp::node_parser::parse_json(agl, "/src") {
        Ok(_) => panic!("agl node scheduled under its key"),
        Err(e) => assert_eq!(e, ConfigError::UnknownNode),
    }
    let arrays = r#"{"starters": {"s": {"type": "image_load"}},
                     "imgproc": {"blur": {"input": ["s.output"]}}, "finishers": {}}"#;
    match rip::swspp::node_parser::parse_json(arrays, "/src") {
        Ok(_) => panic!("array input accepted"),
        Err(e) => assert_eq!(e, ConfigError::BadInput),
    }
}

#[test]
fn configure_nodes_of_one_category() {
    let root = parse_json_text(r#"{"n": {"type": "crop", "left": 7, "flag": false, "w": 0.5}}"#)
        .expect("json");
    let messages: Vec<String> = configure_nodes(&root, "/x").iter().map(show).collect();
    assert_eq!(
        messages,
        vec![
            "n::left = u32 7".to_string(),
            "n::left = f32 true 7 0".to_string(),
            "n::flag = bool false".to_string(),
            "n::w = f32 true 5 -1".to_string(),
        ]
    );
}

#[test]
fn json_reading_and_queries() {
    assert!(parse_json_text("[1,").is_none());
    let root = parse_json_text(r#"{"a": 1, "b": "x", "c": [true], "d": -2}"#).expect("json");
    assert!(root.has_key("a"));
    assert!(!root.has_key("z"));
    assert_eq!(root.get("a").and_then(|v| v.as_u32()), Some(1));
    assert_eq!(root.get("d").and_then(|v| v.as_u32()), None);
    assert_eq!(root.get("b").and_then(|v| v.as_str()), Some("x"));
    let c = root.get("c").expect("c");
    assert!(c.is_array());
    assert!(matches!(c.index(0), Some(Json::Boolean(true))));
    assert!(c.index(1).is_none());
    assert_eq!(root.members().len(), 4);
}

#[test]
fn reserved_strings_and_text() {
    let r = get_reserved_strings("/src");
    assert_eq!(r, vec![("${SRC_DIR}".to_string(), "/src".to_string())]);
    assert_eq!(replace_all_exec("${SRC_DIR}/a/${SRC_DIR}", "${SRC_DIR}", "/s"), "/s/a//s");
    assert_eq!(concat_str("ab", "cd"), "abcd");
    assert!(str_eq("x", "x"));
    assert!(!str_eq("x", "y"));
}
