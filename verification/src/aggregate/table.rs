//! The aggregate protocol of a composite type before and after the types
//! of its fields are known: the proxy that a derivation gives, the table of
//! the types that have the protocol, and the codec that the two make.
use vstd::prelude::*;
use crate::aggregate::{shapes_view, variants_view, AggShape, AggregateCodec, ShapeView};
use crate::error::BuildError;
use crate::lookup::{first_of, is_first_of, lemma_first_of_is_one};

verus! {

/// The mathematical form of an [`AggregateTable`]: the names and the shapes
/// of the types, in the order in which they were registered.
pub struct TableView {
    pub names: Seq<Seq<char>>,
    pub shapes: Seq<ShapeView>,
}

impl TableView {
    /// The shape of the first type named `name`; `None` when the table
    /// holds no type of that name.
    pub open spec fn shape_of(self, name: Seq<char>) -> Option<ShapeView> {
        match first_of(self.names, name) {
            Some(position) => Some(self.shapes[position]),
            None => None,
        }
    }

    /// The table with one more type.
    pub open spec fn with(self, name: Seq<char>, shape: ShapeView) -> TableView {
        TableView { names: self.names.push(name), shapes: self.shapes.push(shape) }
    }
}

/// The types that have been given the aggregate protocol, by name.
pub struct AggregateTable {
    codecs: Vec<AggregateCodec>,
}

impl View for AggregateTable {
    type V = TableView;

    closed spec fn view(&self) -> TableView {
        TableView {
            names: self.codecs@.map_values(|c: AggregateCodec| c.name@),
            shapes: self.codecs@.map_values(|c: AggregateCodec| c.shape@),
        }
    }
}

impl AggregateTable {
    /// A table that holds no type yet.
    pub fn new() -> (table: AggregateTable)
        ensures
            table@ == (TableView { names: Seq::empty(), shapes: Seq::empty() }),
    {
        let table = AggregateTable { codecs: Vec::new() };
        assert(table@.names =~= Seq::<Seq<char>>::empty());
        assert(table@.shapes =~= Seq::<ShapeView>::empty());
        table
    }

    /// Adds a type with its codec. A name that the table holds already
    /// keeps the shape it was first given.
    pub fn register(&mut self, codec: AggregateCodec)
        ensures
            final(self)@ == old(self)@.with(codec.name@, codec.shape@),
    {
        let ghost name = codec.name@;
        let ghost shape = codec.shape@;
        self.codecs.push(codec);
        assert(self@.names =~= old(self)@.names.push(name));
        assert(self@.shapes =~= old(self)@.shapes.push(shape));
    }

    /// Adds a terminal type: one whose values are one node reference each.
    pub fn register_leaf(&mut self, name: &str)
        ensures
            final(self)@ == old(self)@.with(name@, ShapeView::Leaf),
    {
        self.register(AggregateCodec { name: String::from_str(name), shape: AggShape::Leaf });
    }

    /// A copy of the shape of the first type named `name`; `None` when the
    /// table holds no type of that name.
    pub fn shape_of(&self, name: &str) -> (shape: Option<AggShape>)
        ensures
            match shape {
                Some(found) => self@.shape_of(name@) == Some(found@),
                None => self@.shape_of(name@) is None,
            },
    {
        let wanted = String::from_str(name);
        let mut i: usize = 0;
        while i < self.codecs.len()
            invariant
                i <= self.codecs@.len(),
                self@.names.len() == self.codecs@.len(),
                wanted@ == name@,
                forall|j: int| 0 <= j < i ==> #[trigger] self@.names[j] != name@,
            decreases self.codecs@.len() - i,
        {
            if self.codecs[i].name == wanted {
                proof {
                    assert(self@.names[i as int] == name@);
                    lemma_first_of_is_one(self@.names, name@, i as int);
                    assert(self@.shapes[i as int] == self.codecs@[i as int].shape@);
                }
                return Some(self.codecs[i].shape.duplicate());
            }
            i += 1;
        }
        proof {
            if exists|k: int| is_first_of(self@.names, name@, k) {
                let k = choose|k: int| is_first_of(self@.names, name@, k);
                assert(self@.names[k] != name@);
            }
        }
        None
    }
}

/// How the fields of a variant are written.
#[derive(Clone, Copy, Debug, PartialEq, Eq, Structural)]
pub enum VariantForm {
    /// `Name { a: A, b: B }`
    Named,
    /// `Name(A, B)`
    Unnamed,
    /// `Name`
    Unit,
}

/// One field of an aggregate, at its declared position.
#[derive(Debug, PartialEq, Eq)]
pub struct AggregateField {
    /// The name that the field's value is bound to: the field's own name, or
    /// `f` and the field's position where it has none.
    pub binding: String,
    /// The field's type as written.
    pub ty: String,
}

/// One variant of a tagged union; its tag is its position among the variants.
#[derive(Debug, PartialEq, Eq)]
pub struct AggregateVariant {
    pub name: String,
    pub form: VariantForm,
    pub fields: Vec<AggregateField>,
}

/// What an aggregate is made of.
#[derive(Debug, PartialEq, Eq)]
pub enum AggregateBody {
    /// A plain composite: its fields in declared order.
    Struct(Vec<AggregateField>),
    /// A tagged union: its variants in tag order.
    Union(Vec<AggregateVariant>),
}

/// The aggregate protocol of one composite type, with the types of its
/// fields still by name.
#[derive(Debug, PartialEq, Eq)]
pub struct AggregateProxy {
    pub name: String,
    pub body: AggregateBody,
}

/// Whether the type of each of `fields` is in `table`.
pub open spec fn fields_resolved(table: TableView, fields: Seq<AggregateField>) -> bool {
    forall|i: int| 0 <= i < fields.len() ==> table.shape_of((#[trigger] fields[i]).ty@) is Some
}

/// The shape in `table` of the type of each of `fields`, one for one.
pub open spec fn field_shapes(table: TableView, fields: Seq<AggregateField>) -> Seq<ShapeView> {
    Seq::new(fields.len(), |i: int| table.shape_of(fields[i].ty@)->0)
}

/// Whether the type of each field of each of `variants` is in `table`.
pub open spec fn variants_resolved(table: TableView, variants: Seq<AggregateVariant>) -> bool {
    forall|k: int|
        0 <= k < variants.len() ==> fields_resolved(table, (#[trigger] variants[k]).fields@)
}

/// The shapes in `table` of the fields of each of `variants`, one for one.
pub open spec fn variant_shapes(table: TableView, variants: Seq<AggregateVariant>) -> Seq<
    Seq<ShapeView>,
> {
    Seq::new(variants.len(), |k: int| field_shapes(table, variants[k].fields@))
}

impl AggregateProxy {
    /// Whether the type of every field is in `table`.
    pub open spec fn resolved(&self, table: TableView) -> bool {
        match self.body {
            AggregateBody::Struct(fields) => fields_resolved(table, fields@),
            AggregateBody::Union(variants) => variants_resolved(table, variants@),
        }
    }

    /// The shape of the aggregate when the types of its fields have the
    /// shapes that `table` gives them.
    pub open spec fn shape(&self, table: TableView) -> ShapeView {
        match self.body {
            AggregateBody::Struct(fields) => ShapeView::Struct(field_shapes(table, fields@)),
            AggregateBody::Union(variants) => ShapeView::Union(variant_shapes(table, variants@)),
        }
    }

    /// The codec of the aggregate: its shape with the type of every field
    /// looked up in `table`. It fails with `UnregisteredFieldType` when the
    /// type of a field is not in `table`.
    pub fn codec(&self, table: &AggregateTable) -> (result: Result<AggregateCodec, BuildError>)
        ensures
            match result {
                Ok(codec) => self.resolved(table@) && codec.name@ == self.name@ && codec.shape@
                    == self.shape(table@),
                Err(e) => !self.resolved(table@) && e == BuildError::UnregisteredFieldType,
            },
    {
        match &self.body {
            AggregateBody::Struct(fields) => match resolve_fields(fields, table) {
                Some(shapes) => Ok(
                    AggregateCodec { name: self.name.clone(), shape: AggShape::Struct(shapes) },
                ),
                None => Err(BuildError::UnregisteredFieldType),
            },
            AggregateBody::Union(variants) => {
                let mut shapes: Vec<Vec<AggShape>> = Vec::new();
                let mut k: usize = 0;
                assert(variants_view(shapes@) =~= variant_shapes(table@, variants@.take(0)));
                while k < variants.len()
                    invariant
                        k <= variants@.len(),
                        self.body == AggregateBody::Union(*variants),
                        variants_view(shapes@) == variant_shapes(table@, variants@.take(k as int)),
                        forall|j: int|
                            0 <= j < k ==> fields_resolved(table@, (#[trigger] variants@[j]).fields@),
                    decreases variants@.len() - k,
                {
                    match resolve_fields(&variants[k].fields, table) {
                        Some(fields) => {
                            let ghost before = shapes@;
                            shapes.push(fields);
                            assert(variants_view(shapes@) =~= variants_view(before).push(
                                shapes_view(fields@),
                            ));
                            assert(variants@.take(k + 1)[k as int] == variants@[k as int]);
                            assert(variants_view(shapes@) =~= variant_shapes(
                                table@,
                                variants@.take(k + 1),
                            ));
                        },
                        None => {
                            return Err(BuildError::UnregisteredFieldType);
                        },
                    }
                    k += 1;
                }
                assert(variants@.take(variants@.len() as int) =~= variants@);
                Ok(AggregateCodec { name: self.name.clone(), shape: AggShape::Union(shapes) })
            },
        }
    }
}

fn resolve_fields(fields: &Vec<AggregateField>, table: &AggregateTable) -> (shapes: Option<
    Vec<AggShape>,
>)
    ensures
        match shapes {
            Some(found) => fields_resolved(table@, fields@) && shapes_view(found@) == field_shapes(
                table@,
                fields@,
            ),
            None => !fields_resolved(table@, fields@),
        },
{
    let mut shapes: Vec<AggShape> = Vec::new();
    let mut i: usize = 0;
    assert(shapes_view(shapes@) =~= field_shapes(table@, fields@.take(0)));
    while i < fields.len()
        invariant
            i <= fields@.len(),
            shapes_view(shapes@) == field_shapes(table@, fields@.take(i as int)),
            forall|j: int| 0 <= j < i ==> table@.shape_of((#[trigger] fields@[j]).ty@) is Some,
        decreases fields@.len() - i,
    {
        match table.shape_of(fields[i].ty.as_str()) {
            Some(shape) => {
                let ghost before = shapes@;
                shapes.push(shape);
                assert(shapes_view(shapes@) =~= shapes_view(before).push(shape@));
                assert(fields@.take(i + 1)[i as int] == fields@[i as int]);
                assert(shapes_view(shapes@) =~= field_shapes(table@, fields@.take(i + 1)));
            },
            None => {
                return None;
            },
        }
        i += 1;
    }
    assert(fields@.take(fields@.len() as int) =~= fields@);
    Some(shapes)
}

} // verus!
