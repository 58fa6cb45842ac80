use rip::rip::network::bind_address;
use rip::rip::pipeline::{
    FileStamp, NetworkAction, NetworkError, Pipeline, Request, RequestType, RunMode, SetupStep,
    WindowEvent, default_node_response, run_mode, setup_steps,
};

const SAMPLE: &str = r#"{
  "starters": {"loader": {"type": "image_load"}},
  "imgproc": {
    "mono": {"type": "monochrome", "input": "loader.output"},
    "cut": {"type": "crop", "input": "mono.output"}
  },
  "finishers": {"out": {"type": "display", "input": "cut.output"}}
}"#;

fn stamp(secs: u64) -> FileStamp {
    FileStamp { before_epoch: false, secs, nanos: 0 }
}

fn loaded() -> Pipeline {
    let mut p = Pipeline::new();
    match p.parse_json("conf.json", SAMPLE, Some(stamp(10)), "/src") {
        Ok(_) => {},
        Err(e) => panic!("refused: {:?}", e),
    }
    p
}

#[test]
fn new_pipeline_runs_and_starts_on_first_frame() {
    let mut p = Pipeline::new();
    assert!(p.should_run());
    assert!(p.begin_frame());
    assert!(!p.begin_frame());
    assert!(p.execution_order().is_empty());
    assert_eq!(p.json_file(), "");
}

#[test]
fn quit_and_close_stop_the_pipeline() {
    let mut p = Pipeline::new();
    p.handle_event(WindowEvent::Other);
    assert!(p.should_run());
    p.handle_event(WindowEvent::WindowClose);
    assert!(!p.should_run());
    p.handle_event(WindowEvent::Other);
    assert!(!p.should_run());
    let mut q = Pipeline::new();
    q.handle_event(WindowEvent::Quit);
    assert!(!q.should_run());
}

#[test]
fn reading_a_description_sets_up_the_nodes() {
    let mut p = Pipeline::new();
    let (desc, steps) = match p.parse_json("conf.json", SAMPLE, Some(stamp(10)), "/src") {
        Ok(r) => r,
        Err(e) => panic!("refused: {:?}", e),
    };
    assert_eq!(desc.description.nodes.len(), 4);
    assert_eq!(
        steps,
        vec![
            SetupStep::Assign { node: 0 },
            SetupStep::Execute { node: 0 },
            SetupStep::Assign { node: 1 },
            SetupStep::Input { node: 1, image: 0 },
            SetupStep::Execute { node: 1 },
            SetupStep::Assign { node: 2 },
            SetupStep::Input { node: 2, image: 1 },
            SetupStep::Execute { node: 2 },
            SetupStep::Assign { node: 3 },
            SetupStep::Input { node: 3, image: 2 },
            SetupStep::Execute { node: 3 },
        ]
    );
    assert_eq!(p.execution_order(), &vec![0, 1, 2, 3]);
    assert_eq!(p.json_file(), "conf.json");
    assert_eq!(p.json_configuration(), SAMPLE);
}

#[test]
fn created_nodes_are_found_by_name() {
    let p = loaded();
    assert_eq!(p.node_index("loader"), Some(0));
    assert_eq!(p.node_index("mono"), Some(1));
    assert_eq!(p.node_index("cut"), Some(2));
    assert_eq!(p.node_index("out"), Some(3));
    assert_eq!(p.node_index("nobody"), None);
}

#[test]
fn refused_description_reports_its_error() {
    let mut p = Pipeline::new();
    match p.parse_json("bad.json", "{", None, "/src") {
        Ok(_) => panic!("accepted"),
        Err(e) => assert_eq!(e, rip::error::ConfigError::Syntax),
    }
    assert_eq!(p.json_file(), "bad.json");
    assert_eq!(p.json_configuration(), "{");
}

#[test]
fn network_requests_are_answered() {
    let mut p = loaded();
    let image = Request { request_type: RequestType::Image, node_name: "cut".to_string() };
    assert!(matches!(
        p.network_action(&image),
        Ok(NetworkAction::SendImage { synchronize: false, node: 2 })
    ));
    p.begin_frame();
    assert!(matches!(
        p.network_action(&image),
        Ok(NetworkAction::SendImage { synchronize: true, node: 2 })
    ));
    let config = Request { request_type: RequestType::Configuration, node_name: String::new() };
    match p.network_action(&config) {
        Ok(NetworkAction::SendConfiguration { json }) => assert_eq!(json, SAMPLE),
        _ => panic!("configuration request not answered with the text"),
    }
    let other = Request { request_type: RequestType::Other, node_name: "mono".to_string() };
    assert!(matches!(p.network_action(&other), Ok(NetworkAction::AskNode { node: 1 })));
    let unknown = Request { request_type: RequestType::Image, node_name: "x".to_string() };
    assert!(matches!(p.network_action(&unknown), Err(NetworkError::UnknownNode)));
    let unknown_other = Request { request_type: RequestType::Other, node_name: "x".to_string() };
    assert!(matches!(p.network_action(&unknown_other), Err(NetworkError::UnknownNode)));
}

#[test]
fn reload_follows_the_modification_time() {
    let p = loaded();
    assert_eq!(p.reload_needed(Some(stamp(10))), Some(false));
    assert_eq!(p.reload_needed(Some(stamp(11))), Some(true));
    assert_eq!(p.reload_needed(None), Some(false));
    let mut q = Pipeline::new();
    assert!(q.parse_json("c", SAMPLE, None, "/src").is_ok());
    assert_eq!(q.reload_needed(Some(stamp(1))), None);
}

#[test]
fn nodes_answer_without_network_support() {
    assert_eq!(default_node_response(), "Node has not implemented network responses!");
}

#[test]
fn run_mode_from_argument() {
    assert_eq!(run_mode(Some("--repeat")), RunMode::Repeat);
    assert_eq!(run_mode(Some("--once")), RunMode::Once);
    assert_eq!(run_mode(None), RunMode::Once);
}

#[test]
fn setup_steps_follow_connections() {
    let steps = setup_steps(&vec![1, 0], &vec![(0, vec![5, 6])]);
    assert_eq!(
        steps,
        vec![
            SetupStep::Assign { node: 1 },
            SetupStep::Execute { node: 1 },
            SetupStep::Assign { node: 0 },
            SetupStep::Input { node: 0, image: 5 },
            SetupStep::Input { node: 0, image: 6 },
            SetupStep::Execute { node: 0 },
        ]
    );
}

#[test]
fn inputs_come_after_the_nodes_that_make_them() {
    let (_, steps) = match Pipeline::new().parse_json("c", SAMPLE, None, "/src") {
        Ok(r) => r,
        Err(e) => panic!("refused: {:?}", e),
    };
    for (i, s) in steps.iter().enumerate() {
        if let SetupStep::Input { image, .. } = s {
            assert!(steps[..i].contains(&SetupStep::Execute { node: *image }));
        }
    }
}

#[test]
fn bind_address_format() {
    assert_eq!(bind_address("0.0.0.0", "6000"), "tcp://0.0.0.0:6000");
}

#[test]
fn swspp_pipeline_reads_its_schedule() {
    let mut p = rip::swspp::pipeline::Pipeline::new();
    let text = r#"{"starters": {"s": {"type": "image_load"}},
                   "imgproc": {"b": {"type": "blur", "input": "s.output"}},
                   "finishers": {"w": {"type": "image_write", "input": "b.output"}}}"#;
    let (d, steps) = match p.parse_json(text, "/src") {
        Ok(r) => r,
        Err(e) => panic!("refused: {:?}", e),
    };
    assert_eq!(d.nodes.len(), 3);
    assert_eq!(p.execution_order(), &vec![0, 1, 2]);
    assert_eq!(steps.len(), 8);
    assert!(p.begin_frame());
    assert!(!p.begin_frame());
    p.handle_event(WindowEvent::Quit);
    assert!(!p.should_run());
    assert!(p.parse_json("{", "/src").is_err());
    assert_eq!(p.execution_order(), &vec![0, 1, 2]);
}

#[test]
fn starters_get_no_image_and_finishers_give_none() {
    let text = r#"{
      "starters": {"a": {"type": "image_load"}, "b": {"type": "image_load"}},
      "imgproc": {"m": {"type": "arithmetic", "input": ["a.output", "b.output"]}},
      "finishers": {"w": {"type": "image_write", "input": "m.output"},
                    "d": {"type": "display", "input": "m.output"}}
    }"#;
    let (desc, steps) = match Pipeline::new().parse_json("c", text, None, "/src") {
        Ok(r) => r,
        Err(e) => panic!("refused: {:?}", e),
    };
    assert_eq!(desc.description.execution_order, vec![0, 1, 2, 3, 4]);
    let mut order = desc.description.execution_order.clone();
    order.sort();
    order.dedup();
    assert_eq!(order.len(), 5);
    for s in &steps {
        if let SetupStep::Input { node, image } = s {
            assert!(*node >= 2);
            assert!(*image < 3);
        }
    }
}

#[test]
fn events_stop_the_pipeline_for_good() {
    let mut p = Pipeline::new();
    p.handle_events(&vec![WindowEvent::Other, WindowEvent::Other]);
    assert!(p.should_run());
    p.handle_events(&vec![WindowEvent::Other, WindowEvent::WindowClose, WindowEvent::Other]);
    assert!(!p.should_run());
    p.handle_events(&vec![WindowEvent::Other]);
    assert!(!p.should_run());
    p.handle_events(&vec![]);
    assert!(!p.should_run());
}
