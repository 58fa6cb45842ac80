//! Configuration values of nodes: the messages that a pipeline description
//! sends to its nodes through the data bus, one per option of each node.
use crate::json_doc::{Json, JsonNumber, number_as_u32};
use crate::text::{concat_str, replace_all, replace_all_exec, str_eq};
use vstd::prelude::*;

verus! {

/// The type tag under which `bool` values travel on the bus.
pub const TAG_BOOL: u64 = 1;

/// The type tag under which `String` values travel on the bus.
pub const TAG_STRING: u64 = 2;

/// The type tag under which `u32` values travel on the bus.
pub const TAG_U32: u64 = 3;

/// The type tag under which `f32` values travel on the bus.
pub const TAG_F32: u64 = 4;

/// A configuration value. A 32-bit float is carried as the JSON number it is
/// read from; it is converted where it is applied.
pub enum ConfigValue {
    Bool(bool),
    Text(String),
    U32(u32),
    F32(JsonNumber),
}

/// The abstract value of a configuration value.
pub enum ValueView {
    Bool(bool),
    Text(Seq<char>),
    U32(u32),
    F32(JsonNumber),
}

impl View for ConfigValue {
    type V = ValueView;

    open spec fn view(&self) -> ValueView {
        match self {
            ConfigValue::Bool(b) => ValueView::Bool(*b),
            ConfigValue::Text(s) => ValueView::Text(s@),
            ConfigValue::U32(u) => ValueView::U32(*u),
            ConfigValue::F32(n) => ValueView::F32(*n),
        }
    }
}

/// The bus type tag of a value.
pub open spec fn value_tag(v: ValueView) -> u64 {
    match v {
        ValueView::Bool(_) => TAG_BOOL,
        ValueView::Text(_) => TAG_STRING,
        ValueView::U32(_) => TAG_U32,
        ValueView::F32(_) => TAG_F32,
    }
}

impl ConfigValue {
    /// The bus type tag of this value.
    pub fn type_tag(&self) -> (t: u64)
        ensures
            t == value_tag(self@),
    {
        match self {
            ConfigValue::Bool(_) => TAG_BOOL,
            ConfigValue::Text(_) => TAG_STRING,
            ConfigValue::U32(_) => TAG_U32,
            ConfigValue::F32(_) => TAG_F32,
        }
    }
}

/// A value sent under the key `node::option`.
pub struct ConfigMessage {
    pub key: String,
    pub value: ConfigValue,
}

/// The abstract value of a message.
pub struct MessageView {
    pub key: Seq<char>,
    pub value: ValueView,
}

impl View for ConfigMessage {
    type V = MessageView;

    open spec fn view(&self) -> MessageView {
        MessageView { key: self.key@, value: self.value@ }
    }
}

/// The abstract value of a list of messages.
pub open spec fn messages_view(m: Seq<ConfigMessage>) -> Seq<MessageView> {
    m.map_values(|x: ConfigMessage| x@)
}

/// The abstract value of a list of (pattern, replacement) pairs.
pub open spec fn pairs_view(p: Seq<(String, String)>) -> Seq<(Seq<char>, Seq<char>)> {
    p.map_values(|x: (String, String)| (x.0@, x.1@))
}

/// The placeholders that configuration strings may hold: `${SRC_DIR}` stands
/// for the source directory.
pub fn get_reserved_strings(src_dir: &str) -> (r: Vec<(String, String)>)
    ensures
        pairs_view(r@) == seq![("${SRC_DIR}"@, src_dir@)],
{
    let mut r: Vec<(String, String)> = Vec::new();
    r.push(("${SRC_DIR}".to_owned(), src_dir.to_owned()));
    proof {
        assert(pairs_view(r@) =~= seq![("${SRC_DIR}"@, src_dir@)]);
    }
    r
}

/// Every pattern of the reserved strings is non-empty.
pub open spec fn patterns_nonempty(reserved: Seq<(Seq<char>, Seq<char>)>) -> bool {
    forall|i: int| 0 <= i < reserved.len() ==> #[trigger] reserved[i].0.len() > 0
}

/// `s` with each reserved pattern replaced in turn by its replacement.
pub open spec fn apply_reserved(s: Seq<char>, reserved: Seq<(Seq<char>, Seq<char>)>) -> Seq<char>
    decreases reserved.len(),
{
    if reserved.len() == 0 {
        s
    } else {
        apply_reserved(
            replace_all(s, reserved[0].0, reserved[0].1),
            reserved.drop_first(),
        )
    }
}

/// The messages one option value sends under `key`: a boolean as a `bool`;
/// a string, with the reserved strings replaced, as a `String`; with
/// `numbers`, a number as a `u32` when it reads as one, and then always as an
/// `f32`; nothing for any other value.
pub open spec fn value_messages(
    key: Seq<char>,
    v: Json,
    reserved: Seq<(Seq<char>, Seq<char>)>,
    numbers: bool,
) -> Seq<MessageView> {
    match v {
        Json::Boolean(b) => seq![MessageView { key, value: ValueView::Bool(b) }],
        Json::Str(s) => seq![
            MessageView { key, value: ValueView::Text(apply_reserved(s@, reserved)) },
        ],
        Json::Number(n) => if numbers {
            let f = seq![MessageView { key, value: ValueView::F32(n) }];
            match number_as_u32(n) {
                Some(u) => seq![MessageView { key, value: ValueView::U32(u) }] + f,
                None => f,
            }
        } else {
            Seq::empty()
        },
        _ => Seq::empty(),
    }
}

/// The key under which option `option` of node `node` is sent.
pub open spec fn option_key(node: Seq<char>, option: Seq<char>) -> Seq<char> {
    node + "::"@ + option
}

/// The messages of the options of one node, every option but `type`.
pub open spec fn option_messages(
    node: Seq<char>,
    options: Seq<(String, Json)>,
    reserved: Seq<(Seq<char>, Seq<char>)>,
    numbers: bool,
) -> Seq<MessageView>
    decreases options.len(),
{
    if options.len() == 0 {
        Seq::empty()
    } else {
        let last = options.last();
        option_messages(node, options.drop_last(), reserved, numbers) + if last.0@ == "type"@ {
            Seq::empty()
        } else {
            value_messages(option_key(node, last.0@), last.1, reserved, numbers)
        }
    }
}

/// The messages of every node of a category, node after node.
pub open spec fn category_messages(
    nodes: Seq<(String, Json)>,
    reserved: Seq<(Seq<char>, Seq<char>)>,
    numbers: bool,
) -> Seq<MessageView>
    decreases nodes.len(),
{
    if nodes.len() == 0 {
        Seq::empty()
    } else {
        let last = nodes.last();
        category_messages(nodes.drop_last(), reserved, numbers) + option_messages(
            last.0@,
            last.1.entries(),
            reserved,
            numbers,
        )
    }
}

/// `s` with each reserved pattern replaced in turn.
fn apply_reserved_exec(s: &str, reserved: &Vec<(String, String)>) -> (r: String)
    requires
        patterns_nonempty(pairs_view(reserved@)),
    ensures
        r@ == apply_reserved(s@, pairs_view(reserved@)),
{
    let mut r = s.to_owned();
    let mut i: usize = 0;
    proof {
        assert(pairs_view(reserved@).skip(0) =~= pairs_view(reserved@));
    }
    while i < reserved.len()
        invariant
            i <= reserved.len(),
            patterns_nonempty(pairs_view(reserved@)),
            apply_reserved(s@, pairs_view(reserved@)) == apply_reserved(
                r@,
                pairs_view(reserved@).skip(i as int),
            ),
        decreases reserved.len() - i,
    {
        let ghost rv = pairs_view(reserved@);
        proof {
            assert(rv[i as int].0.len() > 0);
            assert(rv.skip(i as int).drop_first() =~= rv.skip(i + 1));
            assert(rv.skip(i as int)[0] == rv[i as int]);
        }
        r = replace_all_exec(r.as_str(), reserved[i].0.as_str(), reserved[i].1.as_str());
        i = i + 1;
    }
    r
}

fn message(key: &str, value: ConfigValue) -> (m: ConfigMessage)
    ensures
        m.key@ == key@,
        m.value == value,
{
    ConfigMessage { key: key.to_owned(), value }
}

/// The messages one option value sends under `key`.
fn value_messages_exec(
    key: &str,
    v: &Json,
    reserved: &Vec<(String, String)>,
    numbers: bool,
) -> (r: Vec<ConfigMessage>)
    requires
        patterns_nonempty(pairs_view(reserved@)),
    ensures
        messages_view(r@) == value_messages(key@, *v, pairs_view(reserved@), numbers),
{
    let mut r: Vec<ConfigMessage> = Vec::new();
    match v {
        Json::Boolean(b) => {
            r.push(message(key, ConfigValue::Bool(*b)));
        },
        Json::Str(s) => {
            let t = apply_reserved_exec(s.as_str(), reserved);
            r.push(message(key, ConfigValue::Text(t)));
        },
        Json::Number(n) => {
            if numbers {
                match v.as_u32() {
                    Some(u) => {
                        r.push(message(key, ConfigValue::U32(u)));
                    },
                    None => {},
                }
                r.push(message(key, ConfigValue::F32(*n)));
            }
        },
        _ => {},
    }
    proof {
        assert(messages_view(r@) =~= value_messages(key@, *v, pairs_view(reserved@), numbers));
    }
    r
}

/// The messages of the options of one node.
fn option_messages_exec(
    node: &str,
    options: &[(String, Json)],
    reserved: &Vec<(String, String)>,
    numbers: bool,
) -> (r: Vec<ConfigMessage>)
    requires
        patterns_nonempty(pairs_view(reserved@)),
    ensures
        messages_view(r@) == option_messages(node@, options@, pairs_view(reserved@), numbers),
{
    let mut r: Vec<ConfigMessage> = Vec::new();
    let mut i: usize = 0;
    let sep = concat_str(node, "::");
    while i < options.len()
        invariant
            i <= options.len(),
            patterns_nonempty(pairs_view(reserved@)),
            sep@ == node@ + "::"@,
            messages_view(r@) == option_messages(
                node@,
                options@.take(i as int),
                pairs_view(reserved@),
                numbers,
            ),
        decreases options.len() - i,
    {
        proof {
            assert(options@.take(i + 1).drop_last() =~= options@.take(i as int));
            assert(options@.take(i + 1).last() == options@[i as int]);
        }
        let ghost before = r@;
        if !str_eq(options[i].0.as_str(), "type") {
            let key = concat_str(sep.as_str(), options[i].0.as_str());
            let mut m = value_messages_exec(key.as_str(), &options[i].1, reserved, numbers);
            r.append(&mut m);
        }
        proof {
            assert(messages_view(r@) =~= option_messages(
                node@,
                options@.take(i as int),
                pairs_view(reserved@),
                numbers,
            ) + (if options@[i as int].0@ == "type"@ {
                Seq::empty()
            } else {
                value_messages(
                    option_key(node@, options@[i as int].0@),
                    options@[i as int].1,
                    pairs_view(reserved@),
                    numbers,
                )
            }));
        }
        i = i + 1;
    }
    proof {
        assert(options@.take(i as int) =~= options@);
    }
    r
}

/// The messages that configure the nodes of one category of a pipeline
/// description: for every node, for every option but `type`, the option's
/// value under the key `node::option`.
pub fn configuration_messages(
    category: &Json,
    reserved: &Vec<(String, String)>,
    numbers: bool,
) -> (r: Vec<ConfigMessage>)
    requires
        patterns_nonempty(pairs_view(reserved@)),
    ensures
        messages_view(r@) == category_messages(category.entries(), pairs_view(reserved@), numbers),
{
    let nodes = category.members();
    let mut r: Vec<ConfigMessage> = Vec::new();
    let mut i: usize = 0;
    while i < nodes.len()
        invariant
            i <= nodes.len(),
            nodes@ == category.entries(),
            patterns_nonempty(pairs_view(reserved@)),
            messages_view(r@) == category_messages(
                nodes@.take(i as int),
                pairs_view(reserved@),
                numbers,
            ),
        decreases nodes.len() - i,
    {
        proof {
            assert(nodes@.take(i + 1).drop_last() =~= nodes@.take(i as int));
            assert(nodes@.take(i + 1).last() == nodes@[i as int]);
        }
        let ghost before = r@;
        let opts = nodes[i].1.members();
        let mut m = option_messages_exec(nodes[i].0.as_str(), opts, reserved, numbers);
        r.append(&mut m);
        proof {
            assert(messages_view(r@) =~= messages_view(before) + option_messages(
                nodes@[i as int].0@,
                nodes@[i as int].1.entries(),
                pairs_view(reserved@),
                numbers,
            ));
        }
        i = i + 1;
    }
    proof {
        assert(nodes@.take(i as int) =~= nodes@);
    }
    r
}

} // verus!
