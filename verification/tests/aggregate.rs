use luisa_derive::aggregate::{AggShape, AggValue, AggregateCodec, AggregateTable};
use luisa_derive::compiler::Compiler;
use luisa_derive::error::BuildError;
use luisa_derive::graph::{Graph, NodeKind, NodeRef};
use luisa_derive::schema::{EnumDef, FieldDef, StructDef, VariantDef, VariantFields};

fn constant(graph: &mut Graph, bits: u64) -> NodeRef {
    graph.allocate_node(NodeKind::Constant { bits }, Vec::new())
}

fn codec(name: &str, shape: AggShape) -> AggregateCodec {
    AggregateCodec { name: name.to_string(), shape }
}

fn color_shape() -> AggShape {
    // Rgb(Vec3) | Spectrum(Float[4])
    AggShape::Union(vec![vec![AggShape::Leaf], vec![AggShape::Leaf]])
}

#[test]
fn plain_composite_encodes_to_its_leaves_in_order() {
    let mut graph = Graph::new();
    let three = constant(&mut graph, 3);
    let two_and_a_half = constant(&mut graph, 2.5f32.to_bits() as u64);
    let value = AggValue::Struct(vec![AggValue::Leaf(three), AggValue::Leaf(two_and_a_half)]);

    let mut nodes = Vec::new();
    value.to_nodes(&mut graph, &mut nodes);

    assert_eq!(nodes, vec![three, two_and_a_half]);
    assert_eq!(graph.len(), 2);
    assert_eq!(graph.kind(nodes[0]), Some(NodeKind::Constant { bits: 3 }));
    assert_eq!(graph.kind(nodes[1]), Some(NodeKind::Constant { bits: 0x4020_0000 }));

    let pair = codec("Pair", AggShape::Struct(vec![AggShape::Leaf, AggShape::Leaf]));
    let (decoded, next) = pair.from_nodes(&graph, &nodes, 0).unwrap();
    assert_eq!(decoded, value);
    assert_eq!(next, 2);
}

#[test]
fn tagged_union_encodes_tag_node_then_payload() {
    let mut graph = Graph::new();
    let v = constant(&mut graph, 7);
    let value = AggValue::Union { tag: 0, fields: vec![AggValue::Leaf(v)] };

    let mut nodes = Vec::new();
    value.to_nodes(&mut graph, &mut nodes);

    assert_eq!(nodes.len(), 2);
    assert_eq!(nodes[0], NodeRef { index: 1 });
    assert_eq!(graph.kind(nodes[0]), Some(NodeKind::UserData { payload: 0 }));
    assert_eq!(graph.user_data(nodes[0]), Some(0));
    assert_eq!(nodes[1], v);

    let color = codec("Color", color_shape());
    let (decoded, next) = color.from_nodes(&graph, &nodes, 0).unwrap();
    assert_eq!(decoded, AggValue::Union { tag: 0, fields: vec![AggValue::Leaf(v)] });
    assert_eq!(next, 2);
}

#[test]
fn every_variant_round_trips() {
    let shape = AggShape::Union(vec![
        vec![],
        vec![AggShape::Leaf],
        vec![AggShape::Leaf, AggShape::Struct(vec![AggShape::Leaf, AggShape::Leaf])],
    ]);
    let any = codec("Any", shape);
    for tag in 0..3usize {
        let mut graph = Graph::new();
        let a = constant(&mut graph, 10);
        let b = constant(&mut graph, 20);
        let c = constant(&mut graph, 30);
        let fields = match tag {
            0 => vec![],
            1 => vec![AggValue::Leaf(b)],
            _ => vec![
                AggValue::Leaf(c),
                AggValue::Struct(vec![AggValue::Leaf(a), AggValue::Leaf(b)]),
            ],
        };
        let value = AggValue::Union { tag, fields };
        let mut nodes = Vec::new();
        value.to_nodes(&mut graph, &mut nodes);
        let (decoded, next) = any.from_nodes(&graph, &nodes, 0).unwrap();
        assert_eq!(decoded, value);
        assert_eq!(next, nodes.len());
        assert_eq!(graph.user_data(nodes[0]), Some(tag));
    }
}

#[test]
fn nested_composite_is_expanded_inline() {
    let mut graph = Graph::new();
    let a = constant(&mut graph, 1);
    let b = constant(&mut graph, 2);
    let c = constant(&mut graph, 3);
    let value = AggValue::Struct(vec![
        AggValue::Leaf(a),
        AggValue::Struct(vec![AggValue::Leaf(b), AggValue::Leaf(c)]),
    ]);
    let mut nodes = Vec::new();
    value.to_nodes(&mut graph, &mut nodes);
    assert_eq!(nodes, vec![a, b, c]);
    assert_eq!(graph.len(), 3);

    let outer = codec(
        "Outer",
        AggShape::Struct(vec![
            AggShape::Leaf,
            AggShape::Struct(vec![AggShape::Leaf, AggShape::Leaf]),
        ]),
    );
    let (decoded, next) = outer.from_nodes(&graph, &nodes, 0).unwrap();
    assert_eq!(decoded, value);
    assert_eq!(next, 3);
}

#[test]
fn union_inside_composite_round_trips_after_earlier_references() {
    let mut graph = Graph::new();
    let a = constant(&mut graph, 1);
    let b = constant(&mut graph, 2);
    let value = AggValue::Struct(vec![
        AggValue::Union { tag: 1, fields: vec![AggValue::Leaf(a)] },
        AggValue::Union { tag: 0, fields: vec![AggValue::Leaf(b)] },
    ]);
    let mut nodes = vec![b, b, b];
    value.to_nodes(&mut graph, &mut nodes);
    assert_eq!(nodes.len(), 7);
    assert_eq!(
        &nodes[3..],
        &[NodeRef { index: 2 }, a, NodeRef { index: 3 }, b]
    );
    assert_eq!(graph.kind(NodeRef { index: 2 }), Some(NodeKind::UserData { payload: 1 }));
    assert_eq!(graph.kind(NodeRef { index: 3 }), Some(NodeKind::UserData { payload: 0 }));

    let both = codec("Both", AggShape::Struct(vec![color_shape(), color_shape()]));
    let (decoded, next) = both.from_nodes(&graph, &nodes, 3).unwrap();
    assert_eq!(decoded, value);
    assert_eq!(next, 7);
}

#[test]
fn decoding_continues_where_the_last_value_ended() {
    let mut graph = Graph::new();
    let a = constant(&mut graph, 1);
    let b = constant(&mut graph, 2);
    let c = constant(&mut graph, 3);
    let nodes = vec![a, b, c];
    let pair = codec("Pair", AggShape::Struct(vec![AggShape::Leaf, AggShape::Leaf]));
    let leaf = codec("Leaf", AggShape::Leaf);
    let (first, next) = pair.from_nodes(&graph, &nodes, 0).unwrap();
    assert_eq!(first, AggValue::Struct(vec![AggValue::Leaf(a), AggValue::Leaf(b)]));
    let (second, end) = leaf.from_nodes(&graph, &nodes, next).unwrap();
    assert_eq!(second, AggValue::Leaf(c));
    assert_eq!(end, 3);
}

#[test]
fn tag_out_of_range_is_an_invalid_variant() {
    let mut graph = Graph::new();
    let tag = graph.new_user_node(2);
    let v = constant(&mut graph, 7);
    let color = codec("Color", color_shape());
    assert_eq!(color.from_nodes(&graph, &vec![tag, v], 0), Err(BuildError::InvalidVariant));
}

#[test]
fn node_without_a_tag_is_an_invalid_variant() {
    let mut graph = Graph::new();
    let v = constant(&mut graph, 0);
    let color = codec("Color", color_shape());
    assert_eq!(color.from_nodes(&graph, &vec![v, v], 0), Err(BuildError::InvalidVariant));
    let stranger = NodeRef { index: 99 };
    assert_eq!(color.from_nodes(&graph, &vec![stranger, v], 0), Err(BuildError::InvalidVariant));
}

#[test]
fn too_few_references_are_reported() {
    let mut graph = Graph::new();
    let a = constant(&mut graph, 1);
    let pair = codec("Pair", AggShape::Struct(vec![AggShape::Leaf, AggShape::Leaf]));
    assert_eq!(pair.from_nodes(&graph, &vec![a], 0), Err(BuildError::MissingReference));
    assert_eq!(pair.from_nodes(&graph, &vec![a, a], 1), Err(BuildError::MissingReference));
    let color = codec("Color", color_shape());
    assert_eq!(color.from_nodes(&graph, &Vec::new(), 0), Err(BuildError::MissingReference));
    let tag = graph.new_user_node(1);
    assert_eq!(color.from_nodes(&graph, &vec![tag], 0), Err(BuildError::MissingReference));
}

#[test]
fn first_failure_among_fields_wins() {
    let mut graph = Graph::new();
    let v = constant(&mut graph, 1);
    let shape = AggShape::Struct(vec![color_shape(), AggShape::Leaf, AggShape::Leaf]);
    let both = codec("Both", shape);
    // the tag is bad and the list is too short: the tag is read first
    assert_eq!(both.from_nodes(&graph, &vec![v, v], 0), Err(BuildError::InvalidVariant));
}

#[test]
fn empty_composite_reads_nothing() {
    let graph = Graph::new();
    let unit = codec("Unit", AggShape::Struct(Vec::new()));
    assert_eq!(unit.from_nodes(&graph, &Vec::new(), 5), Ok((AggValue::Struct(Vec::new()), 5)));
}

#[test]
fn encoding_twice_from_equal_states_gives_equal_results() {
    let build = || {
        let mut graph = Graph::new();
        let a = constant(&mut graph, 1);
        let value = AggValue::Struct(vec![
            AggValue::Union { tag: 1, fields: vec![AggValue::Leaf(a)] },
            AggValue::Leaf(a),
        ]);
        let mut nodes = Vec::new();
        value.to_nodes(&mut graph, &mut nodes);
        let kinds: Vec<_> = (0..graph.len()).map(|i| graph.kind(NodeRef { index: i })).collect();
        (nodes, kinds)
    };
    assert_eq!(build(), build());
}

#[test]
fn encoding_again_in_one_trace_repeats_the_structure() {
    let mut graph = Graph::new();
    let a = constant(&mut graph, 1);
    let value = AggValue::Union { tag: 1, fields: vec![AggValue::Leaf(a)] };
    let mut first = Vec::new();
    value.to_nodes(&mut graph, &mut first);
    let mut second = Vec::new();
    value.to_nodes(&mut graph, &mut second);
    assert_eq!(first.len(), second.len());
    assert_eq!(graph.kind(first[0]), graph.kind(second[0]));
    assert_ne!(first[0], second[0]);
    assert_eq!(first[1], second[1]);
}

#[test]
fn shape_copy_is_equal() {
    let shape = AggShape::Struct(vec![color_shape(), AggShape::Leaf]);
    assert_eq!(shape.duplicate(), shape);
}

#[test]
fn table_gives_the_first_shape_registered_under_a_name() {
    let mut table = AggregateTable::new();
    assert_eq!(table.shape_of("Color"), None);
    table.register_leaf("Expr<f32>");
    table.register(codec("Color", color_shape()));
    table.register(codec("Color", AggShape::Leaf));
    assert_eq!(table.shape_of("Expr<f32>"), Some(AggShape::Leaf));
    assert_eq!(table.shape_of("Color"), Some(color_shape()));
    assert_eq!(table.shape_of("color"), None);
}

fn field(name: &str, ty: &str) -> FieldDef {
    FieldDef { name: name.to_string(), ty: ty.to_string(), attrs: Vec::new() }
}

#[test]
fn derived_struct_codec_round_trips() {
    let def = StructDef {
        name: "Spectrum".to_string(),
        attrs: Vec::new(),
        generics: Vec::new(),
        fields: vec![field("lo", "Expr<f32>"), field("hi", "Expr<f32>")],
    };
    let proxy = Compiler.derive_aggregate_for_struct(&def);
    let mut table = AggregateTable::new();
    assert_eq!(proxy.codec(&table), Err(BuildError::UnregisteredFieldType));
    table.register_leaf("Expr<f32>");
    let spectrum = proxy.codec(&table).unwrap();
    assert_eq!(spectrum.name, "Spectrum");
    assert_eq!(spectrum.shape, AggShape::Struct(vec![AggShape::Leaf, AggShape::Leaf]));

    let mut graph = Graph::new();
    let lo = constant(&mut graph, 1);
    let hi = constant(&mut graph, 2);
    let value = AggValue::Struct(vec![AggValue::Leaf(lo), AggValue::Leaf(hi)]);
    let mut nodes = Vec::new();
    value.to_nodes(&mut graph, &mut nodes);
    assert_eq!(spectrum.from_nodes(&graph, &nodes, 0), Ok((value, 2)));
}

#[test]
fn derived_enum_codec_nests_a_derived_struct() {
    let spectrum = StructDef {
        name: "Spectrum".to_string(),
        attrs: Vec::new(),
        generics: Vec::new(),
        fields: vec![field("samples", "Expr<[f32; 4]>")],
    };
    let color = EnumDef {
        name: "Color".to_string(),
        variants: vec![
            VariantDef {
                name: "Rgb".to_string(),
                fields: VariantFields::Unnamed(vec!["Expr<Vec3>".to_string()]),
            },
            VariantDef {
                name: "Spectrum".to_string(),
                fields: VariantFields::Unnamed(vec!["Spectrum".to_string()]),
            },
            VariantDef { name: "Black".to_string(), fields: VariantFields::Unit },
        ],
    };
    let mut table = AggregateTable::new();
    table.register_leaf("Expr<Vec3>");
    table.register_leaf("Expr<[f32; 4]>");
    let color_proxy = Compiler.derive_aggregate_for_enum(&color);
    // the nested structure has not been given the protocol yet
    assert_eq!(color_proxy.codec(&table), Err(BuildError::UnregisteredFieldType));
    table.register(Compiler.derive_aggregate_for_struct(&spectrum).codec(&table).unwrap());
    let codec = color_proxy.codec(&table).unwrap();
    assert_eq!(
        codec.shape,
        AggShape::Union(vec![
            vec![AggShape::Leaf],
            vec![AggShape::Struct(vec![AggShape::Leaf])],
            vec![],
        ])
    );

    let mut graph = Graph::new();
    let samples = constant(&mut graph, 9);
    let value = AggValue::Union {
        tag: 1,
        fields: vec![AggValue::Struct(vec![AggValue::Leaf(samples)])],
    };
    let mut nodes = Vec::new();
    value.to_nodes(&mut graph, &mut nodes);
    assert_eq!(nodes, vec![NodeRef { index: 1 }, samples]);
    assert_eq!(codec.from_nodes(&graph, &nodes, 0), Ok((value, 2)));

    let black = AggValue::Union { tag: 2, fields: Vec::new() };
    let mut nodes = Vec::new();
    black.to_nodes(&mut graph, &mut nodes);
    assert_eq!(nodes.len(), 1);
    assert_eq!(codec.from_nodes(&graph, &nodes, 0), Ok((black, 1)));
}

#[test]
fn codec_accepts_the_values_of_its_shape_only() {
    let n = NodeRef { index: 0 };
    let color = codec("Color", color_shape());
    assert!(color.accepts(&AggValue::Union { tag: 0, fields: vec![AggValue::Leaf(n)] }));
    assert!(color.accepts(&AggValue::Union { tag: 1, fields: vec![AggValue::Leaf(n)] }));
    assert!(!color.accepts(&AggValue::Union { tag: 2, fields: vec![AggValue::Leaf(n)] }));
    assert!(!color.accepts(&AggValue::Union { tag: 0, fields: Vec::new() }));
    assert!(!color.accepts(&AggValue::Leaf(n)));
    assert!(!color.accepts(&AggValue::Struct(vec![AggValue::Leaf(n)])));
    let pair = codec("Pair", AggShape::Struct(vec![AggShape::Leaf, color_shape()]));
    assert!(pair.accepts(&AggValue::Struct(vec![
        AggValue::Leaf(n),
        AggValue::Union { tag: 1, fields: vec![AggValue::Leaf(n)] },
    ])));
    assert!(!pair.accepts(&AggValue::Struct(vec![AggValue::Leaf(n), AggValue::Leaf(n)])));
    assert!(!pair.accepts(&AggValue::Struct(vec![AggValue::Leaf(n)])));
    assert!(codec("Leaf", AggShape::Leaf).accepts(&AggValue::Leaf(n)));
}
