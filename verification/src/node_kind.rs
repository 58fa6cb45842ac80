//! The kinds of nodes a pipeline description can name, and the tables that
//! map a node's type name to its kind.
use vstd::prelude::*;

verus! {

/// Every kind of node a pipeline can be built from.
#[derive(PartialEq, Eq, Structural, Clone, Copy, Debug)]
pub enum NodeKind {
    Pattern,
    ImageLoad,
    ImageWrite,
    Display,
    Arithmetic,
    Tonemap,
    Monochrome,
    Inverse,
    Threshold,
    AdaptiveThreshold,
    Blur,
    ChromaKey,
    Crop,
    Overlay,
    ObjectHighlight,
    ColorSpaceConversion,
    Transform,
    ConnectedComponents,
    Agl,
    Intensify,
}

/// A table from type names to node kinds, searched from the front.
pub struct KindTable {
    pub entries: Vec<(String, NodeKind)>,
}

/// The abstract value of a kind table.
pub open spec fn table_view(entries: Seq<(String, NodeKind)>) -> Seq<(Seq<char>, NodeKind)> {
    entries.map_values(|e: (String, NodeKind)| (e.0@, e.1))
}

impl View for KindTable {
    type V = Seq<(Seq<char>, NodeKind)>;

    open spec fn view(&self) -> Seq<(Seq<char>, NodeKind)> {
        table_view(self.entries@)
    }
}

/// The kind that `name` maps to in `table`.
pub open spec fn table_lookup(table: Seq<(Seq<char>, NodeKind)>, name: Seq<char>) -> Option<NodeKind>
    decreases table.len(),
{
    if table.len() == 0 {
        None
    } else if table[0].0 == name {
        Some(table[0].1)
    } else {
        table_lookup(table.drop_first(), name)
    }
}

/// The name a created node reports: the name it was created under, except
/// for the `agl` node, which always reports `SomeType`.
pub open spec fn reported_name(kind: NodeKind, name: Seq<char>) -> Seq<char> {
    if kind == NodeKind::Agl {
        "SomeType"@
    } else {
        name
    }
}

impl KindTable {
    /// The kind that `name` maps to.
    pub fn lookup(&self, name: &str) -> (r: Option<NodeKind>)
        ensures
            r == table_lookup(self@, name@),
    {
        let name_s = name.to_owned();
        let mut i: usize = 0;
        proof {
            assert(self@.skip(0) =~= self@);
        }
        while i < self.entries.len()
            invariant
                i <= self.entries.len(),
                name_s@ == name@,
                self@.len() == self.entries@.len(),
                table_lookup(self@, name@) == table_lookup(self@.skip(i as int), name@),
            decreases self.entries.len() - i,
        {
            proof {
                assert(self@.skip(i as int).drop_first() =~= self@.skip(i + 1));
                assert(self@.skip(i as int)[0] == self@[i as int]);
            }
            if self.entries[i].0 == name_s {
                return Some(self.entries[i].1);
            }
            i = i + 1;
        }
        None
    }
}

fn entry(name: &str, kind: NodeKind) -> (r: (String, NodeKind))
    ensures
        r.0@ == name@,
        r.1 == kind,
{
    (name.to_owned(), kind)
}

/// The starters a pipeline description can name: `pattern` and `image_load`.
pub fn get_starter_functors() -> (r: KindTable)
    ensures
        r@ == seq![("pattern"@, NodeKind::Pattern), ("image_load"@, NodeKind::ImageLoad)],
        names_its_kinds(r@),
{
    let mut entries: Vec<(String, NodeKind)> = Vec::new();
    entries.push(entry("pattern", NodeKind::Pattern));
    entries.push(entry("image_load", NodeKind::ImageLoad));
    let r = KindTable { entries };
    proof {
        assert(r@ =~= seq![("pattern"@, NodeKind::Pattern), ("image_load"@, NodeKind::ImageLoad)]);
    }
    r
}

/// The finishers a pipeline description can name: `image_write` and
/// `display`.
pub fn get_finisher_functors() -> (r: KindTable)
    ensures
        r@ == seq![("image_write"@, NodeKind::ImageWrite), ("display"@, NodeKind::Display)],
        names_its_kinds(r@),
{
    let mut entries: Vec<(String, NodeKind)> = Vec::new();
    entries.push(entry("image_write", NodeKind::ImageWrite));
    entries.push(entry("display", NodeKind::Display));
    let r = KindTable { entries };
    proof {
        assert(r@ =~= seq![
            ("image_write"@, NodeKind::ImageWrite),
            ("display"@, NodeKind::Display),
        ]);
    }
    r
}

/// The image processors a pipeline description can name.
pub open spec fn processor_table() -> Seq<(Seq<char>, NodeKind)> {
    seq![
        ("arithmetic"@, NodeKind::Arithmetic),
        ("tonemap"@, NodeKind::Tonemap),
        ("monochrome"@, NodeKind::Monochrome),
        ("inverse"@, NodeKind::Inverse),
        ("threshold"@, NodeKind::Threshold),
        ("adaptive_threshold"@, NodeKind::AdaptiveThreshold),
        ("blur"@, NodeKind::Blur),
        ("chroma_key"@, NodeKind::ChromaKey),
        ("crop"@, NodeKind::Crop),
        ("overlay"@, NodeKind::Overlay),
        ("object_highlight"@, NodeKind::ObjectHighlight),
        ("color_space_conversion"@, NodeKind::ColorSpaceConversion),
        ("transform"@, NodeKind::Transform),
        ("connected_components"@, NodeKind::ConnectedComponents),
    ]
}

/// The image processors a pipeline description can name.
pub fn get_functors() -> (r: KindTable)
    ensures
        r@ == processor_table(),
        names_its_kinds(r@),
{
    let mut entries: Vec<(String, NodeKind)> = Vec::new();
    entries.push(entry("arithmetic", NodeKind::Arithmetic));
    entries.push(entry("tonemap", NodeKind::Tonemap));
    entries.push(entry("monochrome", NodeKind::Monochrome));
    entries.push(entry("inverse", NodeKind::Inverse));
    entries.push(entry("threshold", NodeKind::Threshold));
    entries.push(entry("adaptive_threshold", NodeKind::AdaptiveThreshold));
    entries.push(entry("blur", NodeKind::Blur));
    entries.push(entry("chroma_key", NodeKind::ChromaKey));
    entries.push(entry("crop", NodeKind::Crop));
    entries.push(entry("overlay", NodeKind::Overlay));
    entries.push(entry("object_highlight", NodeKind::ObjectHighlight));
    entries.push(entry("color_space_conversion", NodeKind::ColorSpaceConversion));
    entries.push(entry("transform", NodeKind::Transform));
    entries.push(entry("connected_components", NodeKind::ConnectedComponents));
    let r = KindTable { entries };
    proof {
        assert(r@ =~= processor_table());
    }
    r
}

/// The starters of the SWSPP pipeline reader: `image_load`.
pub fn get_swspp_starter_functors() -> (r: KindTable)
    ensures
        r@ == seq![("image_load"@, NodeKind::ImageLoad)],
        names_its_kinds(r@),
{
    let mut entries: Vec<(String, NodeKind)> = Vec::new();
    entries.push(entry("image_load", NodeKind::ImageLoad));
    let r = KindTable { entries };
    proof {
        assert(r@ =~= seq![("image_load"@, NodeKind::ImageLoad)]);
    }
    r
}

/// The finishers of the SWSPP pipeline reader: `image_write`.
pub fn get_swspp_finisher_functors() -> (r: KindTable)
    ensures
        r@ == seq![("image_write"@, NodeKind::ImageWrite)],
        names_its_kinds(r@),
{
    let mut entries: Vec<(String, NodeKind)> = Vec::new();
    entries.push(entry("image_write", NodeKind::ImageWrite));
    let r = KindTable { entries };
    proof {
        assert(r@ =~= seq![("image_write"@, NodeKind::ImageWrite)]);
    }
    r
}

/// The processors of the SWSPP pipeline reader: `agl`, `intensify`,
/// `inverse` and `blur`.
pub fn get_swspp_functors() -> (r: KindTable)
    ensures
        r@ == seq![
            ("agl"@, NodeKind::Agl),
            ("intensify"@, NodeKind::Intensify),
            ("inverse"@, NodeKind::Inverse),
            ("blur"@, NodeKind::Blur),
        ],
        names_its_kinds(r@),
{
    let mut entries: Vec<(String, NodeKind)> = Vec::new();
    entries.push(entry("agl", NodeKind::Agl));
    entries.push(entry("intensify", NodeKind::Intensify));
    entries.push(entry("inverse", NodeKind::Inverse));
    entries.push(entry("blur", NodeKind::Blur));
    let r = KindTable { entries };
    proof {
        assert(r@ =~= seq![
            ("agl"@, NodeKind::Agl),
            ("intensify"@, NodeKind::Intensify),
            ("inverse"@, NodeKind::Inverse),
            ("blur"@, NodeKind::Blur),
        ]);
    }
    r
}

/// The type name by which a description names a node of `kind`: the kind's
/// own name in lower case, words joined by `_`.
pub open spec fn kind_type_name(kind: NodeKind) -> Seq<char> {
    match kind {
        NodeKind::Pattern => "pattern"@,
        NodeKind::ImageLoad => "image_load"@,
        NodeKind::ImageWrite => "image_write"@,
        NodeKind::Display => "display"@,
        NodeKind::Arithmetic => "arithmetic"@,
        NodeKind::Tonemap => "tonemap"@,
        NodeKind::Monochrome => "monochrome"@,
        NodeKind::Inverse => "inverse"@,
        NodeKind::Threshold => "threshold"@,
        NodeKind::AdaptiveThreshold => "adaptive_threshold"@,
        NodeKind::Blur => "blur"@,
        NodeKind::ChromaKey => "chroma_key"@,
        NodeKind::Crop => "crop"@,
        NodeKind::Overlay => "overlay"@,
        NodeKind::ObjectHighlight => "object_highlight"@,
        NodeKind::ColorSpaceConversion => "color_space_conversion"@,
        NodeKind::Transform => "transform"@,
        NodeKind::ConnectedComponents => "connected_components"@,
        NodeKind::Agl => "agl"@,
        NodeKind::Intensify => "intensify"@,
    }
}

/// Every entry of `table` maps a type name to the kind of that name.
pub open spec fn names_its_kinds(table: Seq<(Seq<char>, NodeKind)>) -> bool {
    forall|i: int| 0 <= i < table.len() ==> kind_type_name(#[trigger] table[i].1) == table[i].0
}

/// In a table whose entries each map a name to the kind of that name, a
/// lookup finds the kind of the name looked up, and every name of the table
/// is found.
pub proof fn lemma_lookup_finds_named_kind(table: Seq<(Seq<char>, NodeKind)>, name: Seq<char>)
    requires
        names_its_kinds(table),
    ensures
        table_lookup(table, name) matches Some(k) ==> kind_type_name(k) == name,
        (exists|i: int| 0 <= i < table.len() && #[trigger] table[i].0 == name) ==> table_lookup(
            table,
            name,
        ) is Some,
    decreases table.len(),
{
    if table.len() > 0 {
        let rest = table.drop_first();
        assert forall|i: int| 0 <= i < rest.len() implies kind_type_name(#[trigger] rest[i].1)
            == rest[i].0 by {
            assert(rest[i] == table[i + 1]);
        }
        lemma_lookup_finds_named_kind(rest, name);
        if table[0].0 != name {
            if exists|i: int| 0 <= i < table.len() && #[trigger] table[i].0 == name {
                let i = choose|i: int| 0 <= i < table.len() && #[trigger] table[i].0 == name;
                assert(rest[i - 1] == table[i]);
            }
        }
    }
}

/// Each table of type names, for both pipeline readers, maps every type name
/// to the node kind of that name, so that looking a type name up creates a
/// node of the kind the description names.
pub proof fn lemma_kind_tables_name_kinds(name: Seq<char>)
    ensures
        names_its_kinds(processor_table()),
        names_its_kinds(seq![("pattern"@, NodeKind::Pattern), ("image_load"@, NodeKind::ImageLoad)]),
        names_its_kinds(seq![("image_write"@, NodeKind::ImageWrite), ("display"@, NodeKind::Display)]),
        table_lookup(processor_table(), name) matches Some(k) ==> kind_type_name(k) == name,
        forall|k: NodeKind|
            table_lookup(processor_table(), kind_type_name(k)) is Some ==> table_lookup(
                processor_table(),
                kind_type_name(k),
            ) == Some(k),
{
    lemma_lookup_finds_named_kind(processor_table(), name);
    assert forall|k: NodeKind|
        table_lookup(processor_table(), kind_type_name(k)) is Some implies table_lookup(
            processor_table(),
            kind_type_name(k),
        ) == Some(k) by {
        lemma_lookup_finds_named_kind(processor_table(), kind_type_name(k));
        let found = table_lookup(processor_table(), kind_type_name(k))->0;
        lemma_kind_type_name_injective(found, k);
    }
}

/// Distinct kinds have distinct type names.
pub proof fn lemma_kind_type_name_injective(a: NodeKind, b: NodeKind)
    ensures
        kind_type_name(a) == kind_type_name(b) ==> a == b,
{
    if kind_type_name(a) == kind_type_name(b) && a != b {
        reveal_strlit("pattern");
        reveal_strlit("image_load");
        reveal_strlit("image_write");
        reveal_strlit("display");
        reveal_strlit("arithmetic");
        reveal_strlit("tonemap");
        reveal_strlit("monochrome");
        reveal_strlit("inverse");
        reveal_strlit("threshold");
        reveal_strlit("adaptive_threshold");
        reveal_strlit("blur");
        reveal_strlit("chroma_key");
        reveal_strlit("crop");
        reveal_strlit("overlay");
        reveal_strlit("object_highlight");
        reveal_strlit("color_space_conversion");
        reveal_strlit("transform");
        reveal_strlit("connected_components");
        reveal_strlit("agl");
        reveal_strlit("intensify");
        let x = kind_type_name(a);
        let y = kind_type_name(b);
        assert(x.len() != y.len() || x[0] != y[0] || x[1] != y[1] || x[2] != y[2] || x[3] != y[3]
            || x[x.len() - 1] != y[y.len() - 1]);
    }
}

/// The name a node of `kind` created under `name` reports.
pub fn reported_name_exec(kind: NodeKind, name: &str) -> (r: String)
    ensures
        r@ == reported_name(kind, name@),
{
    if kind == NodeKind::Agl {
        "SomeType".to_owned()
    } else {
        name.to_owned()
    }
}

} // verus!
