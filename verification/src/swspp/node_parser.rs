//! Reading a pipeline description of SWSPP: only the nodes
//! and their schedule; an input must be a single `name.output` string and
//! only booleans and strings configure nodes.
use crate::config::{ConfigMessage, category_messages, configuration_messages, get_reserved_strings, messages_view};
use crate::description::{Description, DescriptionView, TablesView, read_nodes, read_nodes_exec};
use crate::error::ConfigError;
use crate::json_doc::{Json, parse_json_text, parsed_json};
use crate::node_kind::{get_swspp_finisher_functors, get_swspp_functors, get_swspp_starter_functors, NodeKind};
use vstd::prelude::*;

verus! {

/// The tables of this reader.
pub open spec fn swspp_tables() -> TablesView {
    TablesView {
        starters: seq![("image_load"@, NodeKind::ImageLoad)],
        processors: seq![
            ("agl"@, NodeKind::Agl),
            ("intensify"@, NodeKind::Intensify),
            ("inverse"@, NodeKind::Inverse),
            ("blur"@, NodeKind::Blur),
        ],
        finishers: seq![("image_write"@, NodeKind::ImageWrite)],
    }
}

/// What a description `root` yields, `${SRC_DIR}` standing for `src_dir`:
/// it must have `starters` and `finishers`; then the nodes are read.
pub open spec fn description_of(root: Json, src_dir: Seq<char>) -> Result<DescriptionView, ConfigError> {
    if !root.spec_has_key("starters"@) {
        Err(ConfigError::NoStarters)
    } else if !root.spec_has_key("finishers"@) {
        Err(ConfigError::NoFinishers)
    } else {
        read_nodes(root, swspp_tables(), seq![("${SRC_DIR}"@, src_dir)], false, false)
    }
}

/// Reads a description document, `${SRC_DIR}` standing for `src_dir`.
pub fn parse_config(root: &Json, src_dir: &str) -> (r: Result<Description, ConfigError>)
    ensures
        match description_of(*root, src_dir@) {
            Ok(d) => r is Ok && r->Ok_0@ == d,
            Err(e) => r is Err && r->Err_0 == e,
        },
{
    if !root.has_key("starters") {
        return Err(ConfigError::NoStarters);
    }
    if !root.has_key("finishers") {
        return Err(ConfigError::NoFinishers);
    }
    let reserved = get_reserved_strings(src_dir);
    proof {
        reveal_strlit("${SRC_DIR}");
    }
    let starters = get_swspp_starter_functors();
    let processors = get_swspp_functors();
    let finishers = get_swspp_finisher_functors();
    read_nodes_exec(root, &starters, &processors, &finishers, &reserved, false, false)
}

/// Reads a description from the JSON text of a description file,
/// `${SRC_DIR}` standing for `src_dir`. Text
/// that is not JSON is refused with `Syntax`.
pub fn parse_json(json_data: &str, src_dir: &str) -> (r: Result<Description, ConfigError>)
    ensures
        match parsed_json(json_data@) {
            None => r is Err && r->Err_0 == ConfigError::Syntax,
            Some(root) => match description_of(root, src_dir@) {
                Ok(d) => r is Ok && r->Ok_0@ == d,
                Err(e) => r is Err && r->Err_0 == e,
            },
        },
{
    match parse_json_text(json_data) {
        Some(root) => parse_config(&root, src_dir),
        None => Err(ConfigError::Syntax),
    }
}

/// The configuration messages of one category of a description: booleans
/// and strings only, `${SRC_DIR}` standing for `src_dir`.
pub fn configure_nodes(json: &Json, src_dir: &str) -> (r: Vec<ConfigMessage>)
    ensures
        messages_view(r@) == category_messages(json.entries(), seq![("${SRC_DIR}"@, src_dir@)], false),
{
    let reserved = get_reserved_strings(src_dir);
    proof {
        reveal_strlit("${SRC_DIR}");
    }
    configuration_messages(json, &reserved, false)
}

} // verus!
