//! Reading a pipeline description: nodes, schedule, configuration messages,
//! image dimensions and the network address to serve on.
use crate::config::{ConfigMessage, get_reserved_strings, configuration_messages, category_messages, messages_view, pairs_view, MessageView};
use crate::description::{Description, DescriptionView, TablesView, read_nodes, read_nodes_exec};
use crate::error::ConfigError;
use crate::json_doc::{Json, parse_json_text, parsed_json};
use crate::node_kind::{get_finisher_functors, get_functors, get_starter_functors, processor_table, NodeKind};
use vstd::prelude::*;

verus! {

/// The image dimensions of a description: `dimensions: [width, height]`,
/// else 1280 by 1024.
pub open spec fn dimensions_of(root: Json) -> Result<(u32, u32), ConfigError> {
    if root.spec_has_key("dimensions"@) {
        let d = root.at_key("dimensions"@);
        if !(d is Array) {
            Err(ConfigError::BadDimensions)
        } else {
            match (d.at_index(0).spec_as_u32(), d.at_index(1).spec_as_u32()) {
                (Some(x), Some(y)) => Ok((x, y)),
                _ => Err(ConfigError::BadDimensions),
            }
        }
    } else {
        Ok((1280, 1024))
    }
}

/// A string member of `v` that may be absent.
pub open spec fn optional_text(v: Json, key: Seq<char>, default: Seq<char>) -> Option<Seq<char>> {
    if v.spec_has_key(key) {
        v.at_key(key).spec_as_str()
    } else {
        Some(default)
    }
}

/// The address to serve on: `network.ip` and `network.port`, else
/// 127.0.0.1 and 5555.
pub open spec fn network_of(root: Json) -> Result<(Seq<char>, Seq<char>), ConfigError> {
    if root.spec_has_key("network"@) {
        let n = root.at_key("network"@);
        match (optional_text(n, "ip"@, "127.0.0.1"@), optional_text(n, "port"@, "5555"@)) {
            (Some(ip), Some(port)) => Ok((ip, port)),
            _ => Err(ConfigError::BadNetwork),
        }
    } else {
        Ok(("127.0.0.1"@, "5555"@))
    }
}

/// The tables of this reader.
pub open spec fn rip_tables() -> TablesView {
    TablesView {
        starters: seq![("pattern"@, NodeKind::Pattern), ("image_load"@, NodeKind::ImageLoad)],
        processors: processor_table(),
        finishers: seq![("image_write"@, NodeKind::ImageWrite), ("display"@, NodeKind::Display)],
    }
}

/// What a description yields.
pub struct PipelineView {
    pub description: DescriptionView,
    pub dimensions: (u32, u32),
    pub network: (Seq<char>, Seq<char>),
}

/// What a description `root` yields, `${SRC_DIR}` standing for `src_dir`:
/// it must have `starters` and `finishers`; then the dimensions and the
/// network address are read, then the nodes (inputs may be arrays, and
/// numbers are sent as configuration values).
pub open spec fn pipeline_of(root: Json, src_dir: Seq<char>) -> Result<PipelineView, ConfigError> {
    if !root.spec_has_key("starters"@) {
        Err(ConfigError::NoStarters)
    } else if !root.spec_has_key("finishers"@) {
        Err(ConfigError::NoFinishers)
    } else {
        match dimensions_of(root) {
            Err(e) => Err(e),
            Ok(dims) => match network_of(root) {
                Err(e) => Err(e),
                Ok(net) => match read_nodes(
                    root,
                    rip_tables(),
                    seq![("${SRC_DIR}"@, src_dir)],
                    true,
                    true,
                ) {
                    Err(e) => Err(e),
                    Ok(d) => Ok(PipelineView { description: d, dimensions: dims, network: net }),
                },
            },
        }
    }
}

/// What a description yields: its nodes, schedule and configuration
/// messages, the image dimensions and the network address.
pub struct PipelineDescription {
    pub description: Description,
    pub dimensions: (u32, u32),
    pub network: (String, String),
}

impl View for PipelineDescription {
    type V = PipelineView;

    open spec fn view(&self) -> PipelineView {
        PipelineView {
            description: self.description@,
            dimensions: self.dimensions,
            network: (self.network.0@, self.network.1@),
        }
    }
}

fn dimensions_exec(root: &Json) -> (r: Result<(u32, u32), ConfigError>)
    ensures
        r == dimensions_of(*root),
{
    match root.get("dimensions") {
        Some(d) => {
            if !d.is_array() {
                return Err(ConfigError::BadDimensions);
            }
            let x = match d.index(0) {
                Some(v) => v.as_u32(),
                None => None,
            };
            let y = match d.index(1) {
                Some(v) => v.as_u32(),
                None => None,
            };
            match (x, y) {
                (Some(x), Some(y)) => Ok((x, y)),
                _ => Err(ConfigError::BadDimensions),
            }
        },
        None => Ok((1280, 1024)),
    }
}

fn optional_text_exec(v: &Json, key: &str, default: &str) -> (r: Option<String>)
    ensures
        match r {
            Some(s) => optional_text(*v, key@, default@) == Some(s@),
            None => optional_text(*v, key@, default@) is None,
        },
{
    match v.get(key) {
        Some(x) => match x.as_str() {
            Some(s) => Some(s.to_owned()),
            None => None,
        },
        None => Some(default.to_owned()),
    }
}

fn network_exec(root: &Json) -> (r: Result<(String, String), ConfigError>)
    ensures
        match network_of(*root) {
            Ok((ip, port)) => r is Ok && r->Ok_0.0@ == ip && r->Ok_0.1@ == port,
            Err(e) => r == Err::<(String, String), ConfigError>(e),
        },
{
    match root.get("network") {
        Some(n) => {
            let ip = optional_text_exec(n, "ip", "127.0.0.1");
            let port = optional_text_exec(n, "port", "5555");
            match (ip, port) {
                (Some(ip), Some(port)) => Ok((ip, port)),
                _ => Err(ConfigError::BadNetwork),
            }
        },
        None => Ok(("127.0.0.1".to_owned(), "5555".to_owned())),
    }
}

/// Reads a description document, `${SRC_DIR}` standing for `src_dir`.
pub fn parse_config(root: &Json, src_dir: &str) -> (r: Result<PipelineDescription, ConfigError>)
    ensures
        match pipeline_of(*root, src_dir@) {
            Ok(p) => r is Ok && r->Ok_0@ == p,
            Err(e) => r is Err && r->Err_0 == e,
        },
{
    if !root.has_key("starters") {
        return Err(ConfigError::NoStarters);
    }
    if !root.has_key("finishers") {
        return Err(ConfigError::NoFinishers);
    }
    let dimensions = match dimensions_exec(root) {
        Ok(d) => d,
        Err(e) => {
            return Err(e);
        },
    };
    let network = match network_exec(root) {
        Ok(n) => n,
        Err(e) => {
            return Err(e);
        },
    };
    let reserved = get_reserved_strings(src_dir);
    proof {
        assert(pairs_view(reserved@)[0].0 == "${SRC_DIR}"@);
        reveal_strlit("${SRC_DIR}");
    }
    let starters = get_starter_functors();
    let processors = get_functors();
    let finishers = get_finisher_functors();
    match read_nodes_exec(root, &starters, &processors, &finishers, &reserved, true, true) {
        Ok(description) => Ok(PipelineDescription { description, dimensions, network }),
        Err(e) => Err(e),
    }
}

/// Reads a description from JSON text, `${SRC_DIR}` standing for
/// `src_dir`. Text that is not JSON is refused with `Syntax`.
pub fn parse_json(json_data: &str, src_dir: &str) -> (r: Result<PipelineDescription, ConfigError>)
    ensures
        match parsed_json(json_data@) {
            None => r is Err && r->Err_0 == ConfigError::Syntax,
            Some(root) => match pipeline_of(root, src_dir@) {
                Ok(p) => r is Ok && r->Ok_0@ == p,
                Err(e) => r is Err && r->Err_0 == e,
            },
        },
{
    match parse_json_text(json_data) {
        Some(root) => parse_config(&root, src_dir),
        None => Err(ConfigError::Syntax),
    }
}

/// The configuration messages of one category of a description, numbers
/// included, `${SRC_DIR}` standing for `src_dir`.
pub fn configure_nodes(json: &Json, src_dir: &str) -> (r: Vec<ConfigMessage>)
    ensures
        messages_view(r@) == category_messages(json.entries(), seq![("${SRC_DIR}"@, src_dir@)], true),
{
    let reserved = get_reserved_strings(src_dir);
    proof {
        reveal_strlit("${SRC_DIR}");
    }
    configuration_messages(json, &reserved, true)
}

} // verus!
