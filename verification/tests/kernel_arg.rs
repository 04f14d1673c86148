use luisa_derive::aggregate::{AggShape, AggValue, AggregateTable};
use luisa_derive::compiler::Compiler;
use luisa_derive::error::BuildError;
use luisa_derive::graph::{Graph, NodeKind};
use luisa_derive::kernel_arg::{
    ArgShape, ArgValue, KernelArgEncoder, KernelArgTable, KernelBuilder,
    ParamValue, Placeholder,
};
use luisa_derive::schema::{AttrToken, AttributeDef, FieldDef, StructDef};

fn field(name: &str, ty: &str) -> FieldDef {
    FieldDef { name: name.to_string(), ty: ty.to_string(), attrs: Vec::new() }
}

fn marked(name: &str, ty: &str, path: &str, word: &str) -> FieldDef {
    FieldDef {
        name: name.to_string(),
        ty: ty.to_string(),
        attrs: vec![AttributeDef {
            path: Some(path.to_string()),
            list: Some(vec![AttrToken::Ident(word.to_string())]),
        }],
    }
}

fn scene() -> StructDef {
    StructDef {
        name: "Scene".to_string(),
        attrs: Vec::new(),
        generics: Vec::new(),
        fields: vec![
            field("vertices", "Buffer<f32>"),
            marked("label", "String", "luisa", "exclude"),
            field("indices", "Buffer<u32>"),
        ],
    }
}

fn buffers() -> KernelArgTable {
    let mut table = KernelArgTable::new();
    table.register("Buffer<f32>", ArgShape::Resource);
    table.register("Buffer<u32>", ArgShape::Resource);
    table
}

fn p(index: usize) -> ParamValue {
    ParamValue::Placeholder(Placeholder { index })
}

#[test]
fn excluded_field_has_no_parameter_but_is_still_an_aggregate_field() {
    let def = scene();

    // argument marshaling leaves the field out
    let proxy = Compiler.derive_kernel_arg(&def);
    assert_eq!(proxy.parameter_name, "SceneVar");
    let marshaled: Vec<(&str, bool)> =
        proxy.fields.iter().map(|f| (f.name.as_str(), f.marshaled)).collect();
    assert_eq!(marshaled, vec![("vertices", true), ("label", false), ("indices", true)]);
    let shape = proxy.shape(&buffers()).unwrap();
    assert_eq!(
        shape,
        ArgShape::Composite(vec![Some(ArgShape::Resource), None, Some(ArgShape::Resource)])
    );
    let mut builder = KernelBuilder::new();
    let param = shape.def_param(&mut builder);
    assert_eq!(param, ParamValue::Composite(vec![p(0), p(1)]));
    assert_eq!(builder.placeholders().len(), 2);

    // the aggregate codec keeps it and round-trips it
    let aggregate = Compiler.derive_aggregate_for_struct(&def);
    let mut table = AggregateTable::new();
    table.register_leaf("Buffer<f32>");
    table.register_leaf("Buffer<u32>");
    table.register_leaf("String");
    let codec = aggregate.codec(&table).unwrap();
    assert_eq!(
        codec.shape,
        AggShape::Struct(vec![AggShape::Leaf, AggShape::Leaf, AggShape::Leaf])
    );
    let mut graph = Graph::new();
    let a = graph.allocate_node(NodeKind::Constant { bits: 1 }, Vec::new());
    let b = graph.allocate_node(NodeKind::Constant { bits: 2 }, Vec::new());
    let c = graph.allocate_node(NodeKind::Constant { bits: 3 }, Vec::new());
    let value =
        AggValue::Struct(vec![AggValue::Leaf(a), AggValue::Leaf(b), AggValue::Leaf(c)]);
    let mut nodes = Vec::new();
    value.to_nodes(&mut graph, &mut nodes);
    assert_eq!(nodes, vec![a, b, c]);
    assert_eq!(codec.from_nodes(&graph, &nodes, 0), Ok((value, 3)));
}

#[test]
fn encode_appends_marshaled_fields_in_declared_order() {
    let shape = Compiler.derive_kernel_arg(&scene()).shape(&buffers()).unwrap();
    let value = ArgValue::Composite(vec![
        ArgValue::Resource(11),
        ArgValue::HostOnly,
        ArgValue::Resource(22),
    ]);
    assert!(shape.check(&value));
    let mut encoder = KernelArgEncoder::new();
    encoder.resource(5);
    shape.encode(&value, &mut encoder);
    assert_eq!(encoder.args(), &vec![5, 11, 22]);
}

#[test]
fn excluded_field_may_hold_anything() {
    let shape = Compiler.derive_kernel_arg(&scene()).shape(&buffers()).unwrap();
    let value = ArgValue::Composite(vec![
        ArgValue::Resource(11),
        ArgValue::Resource(99),
        ArgValue::Resource(22),
    ]);
    assert!(shape.check(&value));
    let mut encoder = KernelArgEncoder::new();
    shape.encode(&value, &mut encoder);
    assert_eq!(encoder.args(), &vec![11, 22]);
}

#[test]
fn nested_composites_are_encoded_inline() {
    let mut table = buffers();
    let inner = Compiler.derive_kernel_arg(&scene()).shape(&table).unwrap();
    table.register("Scene", inner);
    let world = StructDef {
        name: "World".to_string(),
        attrs: Vec::new(),
        generics: Vec::new(),
        fields: vec![
            field("lights", "Buffer<f32>"),
            field("scene", "Scene"),
            field("camera", "Buffer<f32>"),
        ],
    };
    let shape = Compiler.derive_kernel_arg(&world).shape(&table).unwrap();
    let value = ArgValue::Composite(vec![
        ArgValue::Resource(1),
        ArgValue::Composite(vec![
            ArgValue::Resource(2),
            ArgValue::HostOnly,
            ArgValue::Resource(3),
        ]),
        ArgValue::Resource(4),
    ]);
    assert!(shape.check(&value));
    let mut encoder = KernelArgEncoder::new();
    shape.encode(&value, &mut encoder);
    assert_eq!(encoder.args(), &vec![1, 2, 3, 4]);

    let mut builder = KernelBuilder::new();
    builder.placeholder();
    let param = shape.def_param(&mut builder);
    assert_eq!(
        param,
        ParamValue::Composite(vec![p(1), ParamValue::Composite(vec![p(2), p(3)]), p(4)])
    );
    let indices: Vec<usize> = builder.placeholders().iter().map(|p| p.index).collect();
    assert_eq!(indices, vec![0, 1, 2, 3, 4]);
}

#[test]
fn arguments_and_placeholders_agree_in_number() {
    let shape = Compiler.derive_kernel_arg(&scene()).shape(&buffers()).unwrap();
    let value = ArgValue::Composite(vec![
        ArgValue::Resource(11),
        ArgValue::HostOnly,
        ArgValue::Resource(22),
    ]);
    let mut encoder = KernelArgEncoder::new();
    shape.encode(&value, &mut encoder);
    let mut builder = KernelBuilder::new();
    shape.def_param(&mut builder);
    assert_eq!(encoder.args().len(), builder.placeholders().len());
}

#[test]
fn resource_is_one_argument() {
    let mut encoder = KernelArgEncoder::new();
    ArgShape::Resource.encode(&ArgValue::Resource(8), &mut encoder);
    assert_eq!(encoder.args(), &vec![8]);
    let mut builder = KernelBuilder::new();
    assert_eq!(ArgShape::Resource.def_param(&mut builder), p(0));
    assert_eq!(ArgShape::Resource.def_param(&mut builder), p(1));
}

#[test]
fn value_of_another_shape_is_not_accepted() {
    let shape = Compiler.derive_kernel_arg(&scene()).shape(&buffers()).unwrap();
    assert!(!shape.check(&ArgValue::Resource(1)));
    assert!(!shape.check(&ArgValue::HostOnly));
    assert!(!shape.check(&ArgValue::Composite(vec![ArgValue::Resource(1)])));
    assert!(!shape.check(&ArgValue::Composite(vec![
        ArgValue::Resource(1),
        ArgValue::HostOnly,
        ArgValue::HostOnly,
    ])));
    assert!(!ArgShape::Resource.check(&ArgValue::Composite(Vec::new())));
    assert!(ArgShape::Composite(Vec::new()).check(&ArgValue::Composite(Vec::new())));
}

#[test]
fn what_is_not_there_is_not_encoded() {
    let shape = Compiler.derive_kernel_arg(&scene()).shape(&buffers()).unwrap();
    let mut encoder = KernelArgEncoder::new();
    shape.encode(&ArgValue::Resource(1), &mut encoder);
    shape.encode(&ArgValue::Composite(vec![ArgValue::Resource(7)]), &mut encoder);
    shape.encode(
        &ArgValue::Composite(vec![ArgValue::HostOnly, ArgValue::HostOnly, ArgValue::Resource(9)]),
        &mut encoder,
    );
    ArgShape::Resource.encode(&ArgValue::HostOnly, &mut encoder);
    assert_eq!(encoder.args(), &vec![7, 9]);
}

#[test]
fn marshaled_field_of_an_unknown_type_is_refused() {
    let proxy = Compiler.derive_kernel_arg(&scene());
    let mut table = KernelArgTable::new();
    assert_eq!(proxy.shape(&table), Err(BuildError::UnregisteredFieldType));
    table.register("Buffer<f32>", ArgShape::Resource);
    assert_eq!(proxy.shape(&table), Err(BuildError::UnregisteredFieldType));
    table.register("Buffer<u32>", ArgShape::Resource);
    // the excluded field's type is never looked up
    assert!(proxy.shape(&table).is_ok());
}

#[test]
fn ignore_excludes_as_exclude_does_under_any_attribute() {
    let def = StructDef {
        name: "S".to_string(),
        attrs: Vec::new(),
        generics: Vec::new(),
        fields: vec![
            marked("a", "A", "luisa", "ignore"),
            marked("b", "B", "anything", "exclude"),
            marked("c", "C", "luisa", "Exclude"),
            marked("d", "D", "luisa", "excluded"),
            FieldDef {
                name: "e".to_string(),
                ty: "E".to_string(),
                attrs: vec![
                    AttributeDef { path: Some("doc".to_string()), list: None },
                    AttributeDef {
                        path: None,
                        list: Some(vec![
                            AttrToken::Other,
                            AttrToken::Ident("x".to_string()),
                            AttrToken::Ident("ignore".to_string()),
                        ]),
                    },
                ],
            },
            FieldDef {
                name: "f".to_string(),
                ty: "F".to_string(),
                attrs: vec![AttributeDef { path: Some("exclude".to_string()), list: None }],
            },
        ],
    };
    let proxy = Compiler.derive_kernel_arg(&def);
    let marshaled: Vec<bool> = proxy.fields.iter().map(|f| f.marshaled).collect();
    assert_eq!(marshaled, vec![false, false, true, true, false, true]);
    let types: Vec<&str> = proxy.fields.iter().map(|f| f.ty.as_str()).collect();
    assert_eq!(types, vec!["A", "B", "C", "D", "E", "F"]);
}

#[test]
fn argument_shape_copy_is_equal() {
    let shape = ArgShape::Composite(vec![
        Some(ArgShape::Resource),
        None,
        Some(ArgShape::Composite(vec![None, Some(ArgShape::Resource)])),
    ]);
    assert_eq!(shape.duplicate(), shape);
}

#[test]
fn argument_table_gives_the_first_shape_registered_under_a_name() {
    let mut table = KernelArgTable::new();
    assert_eq!(table.shape_of("T"), None);
    table.register("T", ArgShape::Resource);
    table.register("T", ArgShape::Composite(Vec::new()));
    table.register("U", ArgShape::Composite(Vec::new()));
    assert_eq!(table.shape_of("T"), Some(ArgShape::Resource));
    assert_eq!(table.shape_of("U"), Some(ArgShape::Composite(Vec::new())));
}
