use luisa_derive::compiler::Compiler;
use luisa_derive::graph::{Graph, NodeKind, NodeRef};
use luisa_derive::proxy::{ExprHandle, ValueProxy, VarHandle};
use luisa_derive::schema::{AttrToken, AttributeDef, FieldDef, StructDef};

fn proxy() -> ValueProxy {
    let def = StructDef {
        name: "Point".to_string(),
        attrs: vec![AttributeDef {
            path: Some("repr".to_string()),
            list: Some(vec![AttrToken::Ident("C".to_string())]),
        }],
        generics: Vec::new(),
        fields: vec![
            FieldDef { name: "a".to_string(), ty: "i32".to_string(), attrs: Vec::new() },
            FieldDef { name: "b".to_string(), ty: "f32".to_string(), attrs: Vec::new() },
        ],
    };
    Compiler.derive_value(&def).unwrap()
}

fn constant(graph: &mut Graph, bits: u64) -> ExprHandle {
    ExprHandle { node: graph.allocate_node(NodeKind::Constant { bits }, Vec::new()) }
}

fn node(index: usize) -> NodeRef {
    NodeRef { index }
}

#[test]
fn accessor_extracts_the_field_and_leaves_the_value_alone() {
    let point = proxy();
    let mut graph = Graph::new();
    let whole = constant(&mut graph, 0);
    let b = point.field(&mut graph, whole, 1).unwrap();
    assert_eq!(b.node, node(1));
    assert_eq!(graph.len(), 2);
    assert_eq!(graph.kind(b.node), Some(NodeKind::Extract { index: 1 }));
    assert_eq!(graph.operand(b.node, 0), Some(whole.node));
    assert_eq!(graph.operand(b.node, 1), None);
    assert_eq!(graph.kind(whole.node), Some(NodeKind::Constant { bits: 0 }));
}

#[test]
fn accessor_of_a_field_that_is_not_there_emits_nothing() {
    let point = proxy();
    let mut graph = Graph::new();
    let whole = constant(&mut graph, 0);
    assert_eq!(point.field(&mut graph, whole, 2), None);
    assert_eq!(point.set_field(&mut graph, whole, 2, whole), None);
    assert_eq!(point.var_field(&mut graph, VarHandle { node: whole.node }, 7), None);
    assert!(!point.store_field(&mut graph, VarHandle { node: whole.node }, 2, whole));
    assert_eq!(graph.len(), 1);
}

#[test]
fn replacing_a_field_makes_a_new_value() {
    let point = proxy();
    let mut graph = Graph::new();
    let whole = constant(&mut graph, 0);
    let x = constant(&mut graph, 5);
    let replaced = point.set_field(&mut graph, whole, 0, x).unwrap();
    assert_ne!(replaced, whole);
    assert_eq!(replaced.node, node(2));
    assert_eq!(graph.kind(replaced.node), Some(NodeKind::Insert { index: 0 }));
    assert_eq!(graph.operand(replaced.node, 0), Some(whole.node));
    assert_eq!(graph.operand(replaced.node, 1), Some(x.node));
    assert_eq!(graph.kind(whole.node), Some(NodeKind::Constant { bits: 0 }));
    assert_eq!(graph.len(), 3);
}

#[test]
fn constructor_composes_one_node_over_all_fields() {
    let point = proxy();
    let mut graph = Graph::new();
    let a = constant(&mut graph, 3);
    let b = constant(&mut graph, 0x4020_0000);
    let whole = point.compose(&mut graph, &vec![a, b]).unwrap();
    assert_eq!(whole.node, node(2));
    assert_eq!(graph.len(), 3);
    assert_eq!(graph.kind(whole.node), Some(NodeKind::Compose));
    assert_eq!(graph.operand(whole.node, 0), Some(a.node));
    assert_eq!(graph.operand(whole.node, 1), Some(b.node));
    assert_eq!(graph.operand(whole.node, 2), None);
}

#[test]
fn constructor_wants_one_handle_per_field() {
    let point = proxy();
    let mut graph = Graph::new();
    let a = constant(&mut graph, 3);
    assert_eq!(point.compose(&mut graph, &vec![a]), None);
    assert_eq!(point.compose(&mut graph, &vec![a, a, a]), None);
    assert_eq!(point.compose(&mut graph, &Vec::new()), None);
    assert_eq!(graph.len(), 1);
}

#[test]
fn store_then_load_reads_the_stored_field() {
    let point = proxy();
    let mut graph = Graph::new();
    let x = constant(&mut graph, 42);
    let var = VarHandle::declare(&mut graph);
    assert_eq!(graph.kind(var.node), Some(NodeKind::Local));

    assert!(point.store_field(&mut graph, var, 1, x));
    let loaded = var.load(&mut graph);
    let read_back = point.field(&mut graph, loaded, 1).unwrap();

    // address of the field, store through it, load of the whole, extract
    assert_eq!(graph.len(), 6);
    assert_eq!(graph.kind(node(2)), Some(NodeKind::FieldAddress { index: 1 }));
    assert_eq!(graph.operand(node(2), 0), Some(var.node));
    assert_eq!(graph.kind(node(3)), Some(NodeKind::Store));
    assert_eq!(graph.operand(node(3), 0), Some(node(2)));
    assert_eq!(graph.operand(node(3), 1), Some(x.node));
    assert_eq!(loaded.node, node(4));
    assert_eq!(graph.kind(loaded.node), Some(NodeKind::Load));
    assert_eq!(graph.operand(loaded.node, 0), Some(var.node));
    assert_eq!(read_back.node, node(5));
    assert_eq!(graph.kind(read_back.node), Some(NodeKind::Extract { index: 1 }));
    assert_eq!(graph.operand(read_back.node, 0), Some(loaded.node));
}

#[test]
fn storing_never_changes_the_handle() {
    let point = proxy();
    let mut graph = Graph::new();
    let x = constant(&mut graph, 1);
    let y = constant(&mut graph, 2);
    let var = VarHandle::declare(&mut graph);
    let before = var;
    var.store(&mut graph, x);
    point.store_field(&mut graph, var, 0, y);
    point.store_field(&mut graph, var, 0, x);
    assert_eq!(var, before);
    assert_eq!(graph.kind(var.node), Some(NodeKind::Local));
    assert_eq!(graph.len(), 8);
    assert_eq!(graph.kind(node(3)), Some(NodeKind::Store));
    assert_eq!(graph.operand(node(3), 0), Some(var.node));
    assert_eq!(graph.operand(node(3), 1), Some(x.node));
}

#[test]
fn field_of_a_location_is_a_location() {
    let point = proxy();
    let mut graph = Graph::new();
    let var = VarHandle::declare(&mut graph);
    let field = point.var_field(&mut graph, var, 0).unwrap();
    assert_eq!(graph.kind(field.node), Some(NodeKind::FieldAddress { index: 0 }));
    assert_eq!(graph.operand(field.node, 0), Some(var.node));
    let inner = point.var_field(&mut graph, field, 1).unwrap();
    assert_eq!(graph.operand(inner.node, 0), Some(field.node));
}

#[test]
fn fields_are_found_by_name() {
    let point = proxy();
    assert_eq!(point.field_count(), 2);
    assert_eq!(point.index_of("a"), Some(0));
    assert_eq!(point.index_of("b"), Some(1));
    assert_eq!(point.index_of("c"), None);
    assert_eq!(point.index_of(""), None);
}

#[test]
fn graph_hands_out_references_in_order() {
    let mut graph = Graph::new();
    assert_eq!(graph.len(), 0);
    let first = graph.new_user_node(4);
    let second = graph.allocate_node(NodeKind::Compose, vec![first, first]);
    assert_eq!(first, node(0));
    assert_eq!(second, node(1));
    assert_eq!(graph.user_data(first), Some(4));
    assert_eq!(graph.user_data(second), None);
    assert_eq!(graph.user_data(node(2)), None);
    assert_eq!(graph.kind(node(2)), None);
    assert_eq!(graph.operand(node(2), 0), None);
    assert_eq!(graph.operand(second, 1), Some(first));
}

#[test]
fn field_names_come_in_declared_order() {
    assert_eq!(proxy().field_names(), vec!["a".to_string(), "b".to_string()]);
}
