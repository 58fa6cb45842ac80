# rip

A node-based GPU image processor (RIP, and SWSPP beside it), with its
configuration, scheduling and message routing verified with Verus.

A pipeline is described in JSON: `starters` make images, `imgproc` nodes
consume and make images, `finishers` consume them. Reading a description
creates the nodes, sends each node option to its node over a typed data bus
(`node::option`), orders the nodes so that each runs after the nodes its
`input` names, and lists the steps that set the nodes up.

Layout:

- `src/` — the verified library.
  - `data_bus.rs`: the typed publish/subscribe bus and its registry.
  - `json_doc.rs`, `text.rs`, `config.rs`: the description document, string
    helpers, and the configuration messages of nodes.
  - `node_kind.rs`, `description.rs`, `schedule.rs`, `name_index.rs`:
    node tables, node creation, scheduling, name lookup.
  - `schedule_laws.rs`, `description_laws.rs`, `role_laws.rs`: what every
    schedule satisfies.
  - `node_options.rs`, `gpgpu.rs`: option subscription and the histogram
    settings shared by nodes.
  - `rip/`: the RIP reader, pipeline state, nodes and their laws.
  - `swspp/`: the SWSPP reader, pipeline state and nodes.
  - `minimal.rs`, `pipelines.rs`, `image_input.rs`, `shader_utils.rs`: the
    minimal pipeline, the pipeline table of the C interface, image inputs,
    shader words.
- `tests/` — tests of the library.
- `app/` — the program: file and network I/O, the GPU work (through the
  `runa` GPU library), image files, and the C interface.
