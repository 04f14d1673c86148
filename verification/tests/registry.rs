use luisa_derive::compiler::Compiler;
use luisa_derive::error::BuildError;
use luisa_derive::layout::Layout;
use luisa_derive::registry::{
    FieldDescriptor, TypeDescriptor, TypeHandle, TypeKind, TypeRegistry,
};
use luisa_derive::schema::{AttrToken, AttributeDef, FieldDef, StructDef};

fn l(size: usize, alignment: usize) -> Layout {
    Layout { size, alignment }
}

fn repr_c() -> AttributeDef {
    AttributeDef {
        path: Some("repr".to_string()),
        list: Some(vec![AttrToken::Ident("C".to_string())]),
    }
}

fn field(name: &str, ty: &str) -> FieldDef {
    FieldDef { name: name.to_string(), ty: ty.to_string(), attrs: Vec::new() }
}

fn point() -> StructDef {
    StructDef {
        name: "Point".to_string(),
        attrs: vec![repr_c()],
        generics: Vec::new(),
        fields: vec![field("a", "i32"), field("b", "f32")],
    }
}

fn primitives() -> TypeRegistry {
    let mut registry = TypeRegistry::new();
    registry.register(TypeDescriptor::primitive("i32", l(4, 4)));
    registry.register(TypeDescriptor::primitive("f32", l(4, 4)));
    registry.register(TypeDescriptor::primitive("u8", l(1, 1)));
    registry
}

#[test]
fn new_registry_is_empty() {
    let registry = TypeRegistry::new();
    assert_eq!(registry.len(), 0);
    assert_eq!(registry.lookup("i32"), None);
    assert!(registry.get(TypeHandle { index: 0 }).is_none());
    assert_eq!(registry.layout_of(TypeHandle { index: 0 }), None);
}

#[test]
fn registering_the_same_shape_twice_gives_one_handle() {
    let mut registry = TypeRegistry::new();
    let first = registry.register(TypeDescriptor::primitive("i32", l(4, 4)));
    let other = registry.register(TypeDescriptor::primitive("f32", l(4, 4)));
    let again = registry.register(TypeDescriptor::primitive("i32", l(4, 4)));
    assert_eq!(first, TypeHandle { index: 0 });
    assert_eq!(other, TypeHandle { index: 1 });
    assert_eq!(again, first);
    assert_eq!(registry.len(), 2);
}

#[test]
fn distinct_shapes_get_distinct_handles() {
    let mut registry = TypeRegistry::new();
    let narrow = registry.register(TypeDescriptor::primitive("word", l(4, 4)));
    let wide = registry.register(TypeDescriptor::primitive("word", l(8, 8)));
    assert_ne!(narrow, wide);
    assert_eq!(registry.len(), 2);
    // the name stands for the shape that was registered first
    assert_eq!(registry.lookup("word"), Some(narrow));
    assert_eq!(registry.resolve("word"), Some((narrow, l(4, 4))));
    assert_eq!(registry.layout_of(wide), Some(l(8, 8)));
}

#[test]
fn lookup_of_an_unknown_name_finds_nothing() {
    let registry = primitives();
    assert_eq!(registry.lookup("f64"), None);
    assert_eq!(registry.resolve("f64"), None);
    assert_eq!(registry.lookup("f32"), Some(TypeHandle { index: 1 }));
}

#[test]
fn descriptors_compare_by_shape() {
    let a = TypeDescriptor {
        name: "P".to_string(),
        kind: TypeKind::Struct,
        fields: vec![FieldDescriptor { name: "x".to_string(), ty: TypeHandle { index: 0 } }],
        layout: l(4, 4),
    };
    let same = TypeDescriptor {
        name: "P".to_string(),
        kind: TypeKind::Struct,
        fields: vec![FieldDescriptor { name: "x".to_string(), ty: TypeHandle { index: 0 } }],
        layout: l(4, 4),
    };
    let other_field = TypeDescriptor {
        name: "P".to_string(),
        kind: TypeKind::Struct,
        fields: vec![FieldDescriptor { name: "y".to_string(), ty: TypeHandle { index: 0 } }],
        layout: l(4, 4),
    };
    let other_type = TypeDescriptor {
        name: "P".to_string(),
        kind: TypeKind::Struct,
        fields: vec![FieldDescriptor { name: "x".to_string(), ty: TypeHandle { index: 1 } }],
        layout: l(4, 4),
    };
    let no_field = TypeDescriptor {
        name: "P".to_string(),
        kind: TypeKind::Struct,
        fields: Vec::new(),
        layout: l(4, 4),
    };
    let primitive = TypeDescriptor::primitive("P", l(4, 4));
    assert!(a.same_shape(&same));
    assert!(!a.same_shape(&other_field));
    assert!(!a.same_shape(&other_type));
    assert!(!a.same_shape(&no_field));
    assert!(!no_field.same_shape(&primitive));
}

#[test]
fn composite_is_registered_with_its_fields_resolved() {
    let mut registry = primitives();
    let proxy = Compiler.derive_value(&point()).unwrap();
    let handle = proxy.type_of(l(8, 4), &mut registry).unwrap();
    assert_eq!(handle, TypeHandle { index: 3 });
    let descriptor = registry.get(handle).unwrap();
    assert_eq!(descriptor.name, "Point");
    assert_eq!(descriptor.kind, TypeKind::Struct);
    assert_eq!(descriptor.layout, l(8, 4));
    assert_eq!(
        descriptor.fields,
        vec![
            FieldDescriptor { name: "a".to_string(), ty: TypeHandle { index: 0 } },
            FieldDescriptor { name: "b".to_string(), ty: TypeHandle { index: 1 } },
        ]
    );
    // asking again gives the same handle and registers nothing
    assert_eq!(proxy.type_of(l(8, 4), &mut registry), Ok(handle));
    assert_eq!(registry.len(), 4);
    assert_eq!(registry.lookup("Point"), Some(handle));
}

#[test]
fn composite_nests_a_registered_composite() {
    let mut registry = primitives();
    let inner = Compiler.derive_value(&point()).unwrap();
    inner.type_of(l(8, 4), &mut registry).unwrap();
    let outer = StructDef {
        name: "Segment".to_string(),
        attrs: vec![repr_c()],
        generics: Vec::new(),
        fields: vec![field("tag", "u8"), field("from", "Point"), field("to", "Point")],
    };
    let proxy = Compiler.derive_value(&outer).unwrap();
    assert_eq!(proxy.type_of(l(20, 4), &mut registry), Ok(TypeHandle { index: 4 }));
}

#[test]
fn field_of_an_unregistered_type_is_refused() {
    let mut registry = TypeRegistry::new();
    registry.register(TypeDescriptor::primitive("i32", l(4, 4)));
    let proxy = Compiler.derive_value(&point()).unwrap();
    assert_eq!(proxy.type_of(l(8, 4), &mut registry), Err(BuildError::UnregisteredFieldType));
    assert_eq!(registry.len(), 1);
}

#[test]
fn unregistered_field_is_reported_before_the_layout() {
    let mut registry = TypeRegistry::new();
    let proxy = Compiler.derive_value(&point()).unwrap();
    assert_eq!(proxy.type_of(l(1, 1), &mut registry), Err(BuildError::UnregisteredFieldType));
}

#[test]
fn host_layout_that_differs_is_refused() {
    let mut registry = primitives();
    let proxy = Compiler.derive_value(&point()).unwrap();
    assert_eq!(proxy.type_of(l(12, 4), &mut registry), Err(BuildError::LayoutMismatch));
    assert_eq!(proxy.type_of(l(8, 8), &mut registry), Err(BuildError::LayoutMismatch));
    assert_eq!(registry.len(), 3);
    assert_eq!(registry.lookup("Point"), None);
}

#[test]
fn reordered_host_layout_is_refused() {
    // declared u8, i32, u8 needs 12 bytes; a host that reorders measures 8
    let mut registry = primitives();
    let def = StructDef {
        name: "Mixed".to_string(),
        attrs: vec![repr_c()],
        generics: Vec::new(),
        fields: vec![field("a", "u8"), field("b", "i32"), field("c", "u8")],
    };
    let proxy = Compiler.derive_value(&def).unwrap();
    assert_eq!(proxy.type_of(l(8, 4), &mut registry), Err(BuildError::LayoutMismatch));
    assert_eq!(proxy.type_of(l(12, 4), &mut registry), Ok(TypeHandle { index: 3 }));
}
