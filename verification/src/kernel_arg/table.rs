//! The kernel argument protocol of a composite type before and after the
//! types of its fields are known: the proxy that a derivation gives, the
//! table of the types that can be bound, and the shape that the two make.
use vstd::prelude::*;
use crate::error::BuildError;
use crate::kernel_arg::{slots_view, ArgShape, ArgShapeView};
use crate::lookup::{first_of, is_first_of, lemma_first_of_is_one};

verus! {

/// The mathematical form of a [`KernelArgTable`]: the names and the shapes
/// of the types, in the order in which they were registered.
pub struct ArgTableView {
    pub names: Seq<Seq<char>>,
    pub shapes: Seq<ArgShapeView>,
}

impl ArgTableView {
    /// The shape of the first type named `name`; `None` when the table
    /// holds no type of that name.
    pub open spec fn shape_of(self, name: Seq<char>) -> Option<ArgShapeView> {
        match first_of(self.names, name) {
            Some(position) => Some(self.shapes[position]),
            None => None,
        }
    }

    /// The table with one more type.
    pub open spec fn with(self, name: Seq<char>, shape: ArgShapeView) -> ArgTableView {
        ArgTableView { names: self.names.push(name), shapes: self.shapes.push(shape) }
    }
}

/// A type that can be bound as a kernel argument, by name.
#[derive(Debug, PartialEq, Eq)]
pub struct KernelArgEntry {
    pub name: String,
    pub shape: ArgShape,
}

/// The types that can be bound as kernel arguments, by name.
pub struct KernelArgTable {
    entries: Vec<KernelArgEntry>,
}

impl View for KernelArgTable {
    type V = ArgTableView;

    closed spec fn view(&self) -> ArgTableView {
        ArgTableView {
            names: self.entries@.map_values(|e: KernelArgEntry| e.name@),
            shapes: self.entries@.map_values(|e: KernelArgEntry| e.shape@),
        }
    }
}

impl KernelArgTable {
    /// A table that holds no type yet.
    pub fn new() -> (table: KernelArgTable)
        ensures
            table@ == (ArgTableView { names: Seq::empty(), shapes: Seq::empty() }),
    {
        let table = KernelArgTable { entries: Vec::new() };
        assert(table@.names =~= Seq::<Seq<char>>::empty());
        assert(table@.shapes =~= Seq::<ArgShapeView>::empty());
        table
    }

    /// Adds a type with its shape. A name that the table holds already
    /// keeps the shape it was first given.
    pub fn register(&mut self, name: &str, shape: ArgShape)
        ensures
            final(self)@ == old(self)@.with(name@, shape@),
    {
        let ghost shape_view = shape@;
        self.entries.push(KernelArgEntry { name: String::from_str(name), shape });
        assert(self@.names =~= old(self)@.names.push(name@));
        assert(self@.shapes =~= old(self)@.shapes.push(shape_view));
    }

    /// A copy of the shape of the first type named `name`; `None` when the
    /// table holds no type of that name.
    pub fn shape_of(&self, name: &str) -> (shape: Option<ArgShape>)
        ensures
            match shape {
                Some(found) => self@.shape_of(name@) == Some(found@),
                None => self@.shape_of(name@) is None,
            },
    {
        let wanted = String::from_str(name);
        let mut i: usize = 0;
        while i < self.entries.len()
            invariant
                i <= self.entries@.len(),
                self@.names.len() == self.entries@.len(),
                wanted@ == name@,
                forall|j: int| 0 <= j < i ==> #[trigger] self@.names[j] != name@,
            decreases self.entries@.len() - i,
        {
            if self.entries[i].name == wanted {
                proof {
                    assert(self@.names[i as int] == name@);
                    lemma_first_of_is_one(self@.names, name@, i as int);
                    assert(self@.shapes[i as int] == self.entries@[i as int].shape@);
                }
                return Some(self.entries[i].shape.duplicate());
            }
            i += 1;
        }
        proof {
            if exists|k: int| is_first_of(self@.names, name@, k) {
                let k = choose|k: int| is_first_of(self@.names, name@, k);
                assert(self@.names[k] != name@);
            }
        }
        None
    }
}

/// One declared field of a kernel argument type.
#[derive(Debug, PartialEq, Eq)]
pub struct KernelArgField {
    pub name: String,
    /// The field's type as written.
    pub ty: String,
    /// Whether the field crosses into the kernel. A field that is excluded
    /// stays on the host: it has no parameter and is not encoded.
    pub marshaled: bool,
}

/// The kernel argument protocol of one composite type, with the types of
/// its fields still by name.
#[derive(Debug, PartialEq, Eq)]
pub struct KernelArgProxy {
    /// The composite's name.
    pub name: String,
    /// The name of its parameter type: the composite's name and `Var`.
    pub parameter_name: String,
    /// All declared fields, in declared order.
    pub fields: Vec<KernelArgField>,
}

/// Whether the type of each marshaled one of `fields` is in `table`.
pub open spec fn marshaled_resolved(table: ArgTableView, fields: Seq<KernelArgField>) -> bool {
    forall|i: int|
        0 <= i < fields.len() && (#[trigger] fields[i]).marshaled ==> table.shape_of(fields[i].ty@)
            is Some
}

/// For each of `fields`: the shape in `table` of its type where it is
/// marshaled, `None` where it is excluded.
pub open spec fn field_slots(table: ArgTableView, fields: Seq<KernelArgField>) -> Seq<
    Option<ArgShapeView>,
> {
    Seq::new(
        fields.len(),
        |i: int|
            if fields[i].marshaled {
                table.shape_of(fields[i].ty@)
            } else {
                None
            },
    )
}

impl KernelArgProxy {
    /// The shape of the composite as a kernel argument: its marshaled
    /// fields with their types looked up in `table`, its excluded fields left
    /// out. It fails with `UnregisteredFieldType` when the type of a marshaled
    /// field is not in `table`; the type of an excluded field is never looked up.
    pub fn shape(&self, table: &KernelArgTable) -> (result: Result<ArgShape, BuildError>)
        ensures
            match result {
                Ok(shape) => marshaled_resolved(table@, self.fields@) && shape@
                    == ArgShapeView::Composite(field_slots(table@, self.fields@)),
                Err(e) => !marshaled_resolved(table@, self.fields@) && e
                    == BuildError::UnregisteredFieldType,
            },
    {
        let mut slots: Vec<Option<ArgShape>> = Vec::new();
        let mut i: usize = 0;
        assert(slots_view(slots@) =~= field_slots(table@, self.fields@.take(0)));
        while i < self.fields.len()
            invariant
                i <= self.fields@.len(),
                slots_view(slots@) == field_slots(table@, self.fields@.take(i as int)),
                forall|j: int|
                    0 <= j < i && (#[trigger] self.fields@[j]).marshaled ==> table@.shape_of(
                        self.fields@[j].ty@,
                    ) is Some,
            decreases self.fields@.len() - i,
        {
            let ghost before = slots@;
            let field = &self.fields[i];
            let slot = if field.marshaled {
                match table.shape_of(field.ty.as_str()) {
                    Some(shape) => Some(shape),
                    None => {
                        return Err(BuildError::UnregisteredFieldType);
                    },
                }
            } else {
                None
            };
            slots.push(slot);
            assert(self.fields@.take(i + 1)[i as int] == self.fields@[i as int]);
            assert(slots_view(slots@) =~= slots_view(before).push(
                field_slots(table@, self.fields@.take(i + 1))[i as int],
            ));
            assert(slots_view(slots@) =~= field_slots(table@, self.fields@.take(i + 1)));
            i += 1;
        }
        assert(self.fields@.take(self.fields@.len() as int) =~= self.fields@);
        Ok(ArgShape::Composite(slots))
    }
}

} // verus!
