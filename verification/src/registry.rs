//! The type registry: one canonical descriptor for each distinct shape that
//! was registered, for the whole of a compilation session.
use vstd::prelude::*;
use crate::layout::Layout;

verus! {

/// The handle of a registered type: its position in the registry.
#[derive(Clone, Copy, Debug, PartialEq, Eq, Structural)]
pub struct TypeHandle {
    pub index: usize,
}

/// Whether a descriptor describes a terminal type or a composite.
#[derive(Clone, Copy, Debug, PartialEq, Eq, Structural)]
pub enum TypeKind {
    Primitive,
    Struct,
}

/// A field of a composite descriptor.
#[derive(Debug, PartialEq, Eq)]
pub struct FieldDescriptor {
    pub name: String,
    pub ty: TypeHandle,
}

/// The device description of a type: its name, its fields in declared order
/// (none for a terminal type) and its size and alignment in bytes.
#[derive(Debug, PartialEq, Eq)]
pub struct TypeDescriptor {
    pub name: String,
    pub kind: TypeKind,
    pub fields: Vec<FieldDescriptor>,
    pub layout: Layout,
}

/// The mathematical form of a [`FieldDescriptor`].
pub struct FieldView {
    pub name: Seq<char>,
    pub ty: TypeHandle,
}

/// The mathematical form of a [`TypeDescriptor`].
pub struct TypeView {
    pub name: Seq<char>,
    pub kind: TypeKind,
    pub fields: Seq<FieldView>,
    pub layout: Layout,
}

impl View for FieldDescriptor {
    type V = FieldView;

    open spec fn view(&self) -> FieldView {
        FieldView { name: self.name@, ty: self.ty }
    }
}

impl View for TypeDescriptor {
    type V = TypeView;

    open spec fn view(&self) -> TypeView {
        TypeView {
            name: self.name@,
            kind: self.kind,
            fields: self.fields@.map_values(|f: FieldDescriptor| f@),
            layout: self.layout,
        }
    }
}

/// Whether `position` is the first place in `types` where `wanted` stands.
pub open spec fn is_position_of(types: Seq<TypeView>, wanted: TypeView, position: int) -> bool {
    &&& 0 <= position < types.len()
    &&& types[position] == wanted
    &&& forall|j: int| 0 <= j < position ==> #[trigger] types[j] != wanted
}

/// Whether `wanted` stands in `types`.
pub open spec fn is_registered(types: Seq<TypeView>, wanted: TypeView) -> bool {
    exists|i: int| 0 <= i < types.len() && #[trigger] types[i] == wanted
}

/// What the registry holds after `wanted` is registered: what it held, with
/// `wanted` appended unless it stood there already.
pub open spec fn after_register(types: Seq<TypeView>, wanted: TypeView) -> Seq<TypeView> {
    if is_registered(types, wanted) {
        types
    } else {
        types.push(wanted)
    }
}

/// Whether `position` is the first place in `types` of a type named `name`.
pub open spec fn is_first_named(types: Seq<TypeView>, name: Seq<char>, position: int) -> bool {
    &&& 0 <= position < types.len()
    &&& types[position].name == name
    &&& forall|j: int| 0 <= j < position ==> (#[trigger] types[j]).name != name
}

/// The handle of the first type named `name`; `None` when no type of that
/// name is registered.
pub open spec fn named(types: Seq<TypeView>, name: Seq<char>) -> Option<TypeHandle> {
    if exists|i: int| is_first_named(types, name, i) {
        Some(TypeHandle { index: (choose|i: int| is_first_named(types, name, i)) as usize })
    } else {
        None
    }
}

/// There is one first place at most.
pub proof fn lemma_first_named_is_one(types: Seq<TypeView>, name: Seq<char>, one: int, other: int)
    requires
        is_first_named(types, name, one),
        is_first_named(types, name, other),
    ensures
        one == other,
{
    if one < other {
        assert(types[one].name != name);
    } else if other < one {
        assert(types[other].name != name);
    }
}

/// Registering is idempotent: a descriptor that was registered is
/// registered, it stands at one place only as far as its handle goes, and
/// registering it once more changes nothing.
pub proof fn register_is_idempotent(types: Seq<TypeView>, wanted: TypeView, one: int, other: int)
    requires
        is_position_of(after_register(types, wanted), wanted, one),
        is_position_of(after_register(after_register(types, wanted), wanted), wanted, other),
    ensures
        is_registered(after_register(types, wanted), wanted),
        after_register(after_register(types, wanted), wanted) == after_register(types, wanted),
        one == other,
{
    let once = after_register(types, wanted);
    assert(once[one] == wanted);
    if one < other {
        assert(once[one] != wanted);
    } else if other < one {
        assert(once[other] != wanted);
    }
}

/// The registry of one compilation session. Descriptors are only added,
/// never changed or removed, so a handle stays good for the whole session.
pub struct TypeRegistry {
    types: Vec<TypeDescriptor>,
}

impl View for TypeRegistry {
    type V = Seq<TypeView>;

    closed spec fn view(&self) -> Seq<TypeView> {
        self.types@.map_values(|t: TypeDescriptor| t@)
    }
}

impl TypeDescriptor {
    /// The descriptor of a terminal type.
    pub fn primitive(name: &str, layout: Layout) -> (descriptor: TypeDescriptor)
        ensures
            descriptor@ == (TypeView {
                name: name@,
                kind: TypeKind::Primitive,
                fields: Seq::empty(),
                layout,
            }),
    {
        let descriptor = TypeDescriptor {
            name: String::from_str(name),
            kind: TypeKind::Primitive,
            fields: Vec::new(),
            layout,
        };
        assert(descriptor@.fields =~= Seq::<FieldView>::empty());
        descriptor
    }

    /// Whether the two descriptors describe the same shape: the same name,
    /// kind, size and alignment, and the same fields in the same order.
    pub fn same_shape(&self, other: &TypeDescriptor) -> (same: bool)
        ensures
            same == (self@ == other@),
    {
        if !(self.name == other.name) || !(self.kind == other.kind) || !(self.layout
            == other.layout) || self.fields.len() != other.fields.len() {
            assert(self@.fields.len() == self.fields@.len());
            assert(other@.fields.len() == other.fields@.len());
            return false;
        }
        let mut i: usize = 0;
        while i < self.fields.len()
            invariant
                i <= self.fields@.len(),
                self.fields@.len() == other.fields@.len(),
                forall|k: int| 0 <= k < i ==> (#[trigger] self.fields@[k])@ == other.fields@[k]@,
            decreases self.fields@.len() - i,
        {
            if !(self.fields[i].name == other.fields[i].name) || !(self.fields[i].ty
                == other.fields[i].ty) {
                assert(self@.fields[i as int] == self.fields@[i as int]@);
                assert(other@.fields[i as int] == other.fields@[i as int]@);
                return false;
            }
            i += 1;
        }
        assert(self@.fields =~= other@.fields);
        true
    }
}

impl TypeRegistry {
    /// A registry that holds no type yet.
    pub fn new() -> (registry: TypeRegistry)
        ensures
            registry@ == Seq::<TypeView>::empty(),
    {
        let registry = TypeRegistry { types: Vec::new() };
        assert(registry@ =~= Seq::<TypeView>::empty());
        registry
    }

    /// The number of registered types.
    pub fn len(&self) -> (count: usize)
        ensures
            count == self@.len(),
    {
        self.types.len()
    }

    /// Registers `descriptor` and returns its handle. A descriptor of the
    /// same shape as one registered before gets the handle it got then, and
    /// the registry stays as it is; any other is appended.
    pub fn register(&mut self, descriptor: TypeDescriptor) -> (handle: TypeHandle)
        ensures
            final(self)@ == after_register(old(self)@, descriptor@),
            is_position_of(final(self)@, descriptor@, handle.index as int),
    {
        let mut i: usize = 0;
        while i < self.types.len()
            invariant
                i <= self.types@.len(),
                self@ == old(self)@,
                self@.len() == self.types@.len(),
                forall|j: int| 0 <= j < i ==> #[trigger] self@[j] != descriptor@,
            decreases self.types@.len() - i,
        {
            if self.types[i].same_shape(&descriptor) {
                assert(self@[i as int] == descriptor@);
                return TypeHandle { index: i };
            }
            i += 1;
        }
        let index = self.types.len();
        self.types.push(descriptor);
        assert(self@ =~= old(self)@.push(descriptor@));
        TypeHandle { index }
    }

    /// The handle of the first registered type named `name`; `None` when no
    /// type of that name is registered.
    pub fn lookup(&self, name: &str) -> (handle: Option<TypeHandle>)
        ensures
            handle == named(self@, name@),
    {
        let wanted = String::from_str(name);
        let mut i: usize = 0;
        while i < self.types.len()
            invariant
                i <= self.types@.len(),
                self@.len() == self.types@.len(),
                wanted@ == name@,
                forall|j: int| 0 <= j < i ==> (#[trigger] self@[j]).name != name@,
            decreases self.types@.len() - i,
        {
            if self.types[i].name == wanted {
                proof {
                    assert(self@[i as int].name == name@);
                    assert(is_first_named(self@, name@, i as int));
                    let chosen = choose|k: int| is_first_named(self@, name@, k);
                    lemma_first_named_is_one(self@, name@, i as int, chosen);
                }
                return Some(TypeHandle { index: i });
            }
            i += 1;
        }
        None
    }

    /// The handle of the first registered type named `name`, with the size
    /// and alignment of that type; `None` when no type of that name is
    /// registered.
    pub fn resolve(&self, name: &str) -> (found: Option<(TypeHandle, Layout)>)
        ensures
            match found {
                Some((handle, layout)) => named(self@, name@) == Some(handle) && handle.index
                    < self@.len() && layout == self@[handle.index as int].layout,
                None => named(self@, name@) is None,
            },
    {
        match self.lookup(name) {
            Some(handle) => {
                proof {
                    let chosen = choose|i: int| is_first_named(self@, name@, i);
                    assert(is_first_named(self@, name@, chosen));
                }
                Some((handle, self.types[handle.index].layout))
            },
            None => None,
        }
    }

    /// The descriptor behind `handle`; `None` when the registry has handed
    /// out no such handle.
    pub fn get(&self, handle: TypeHandle) -> (descriptor: Option<&TypeDescriptor>)
        ensures
            match descriptor {
                Some(d) => handle.index < self@.len() && d@ == self@[handle.index as int],
                None => handle.index >= self@.len(),
            },
    {
        if handle.index < self.types.len() {
            Some(&self.types[handle.index])
        } else {
            None
        }
    }

    /// The size and alignment of the type behind `handle`.
    pub fn layout_of(&self, handle: TypeHandle) -> (layout: Option<Layout>)
        ensures
            match layout {
                Some(l) => handle.index < self@.len() && l == self@[handle.index as int].layout,
                None => handle.index >= self@.len(),
            },
    {
        if handle.index < self.types.len() {
            Some(self.types[handle.index].layout)
        } else {
            None
        }
    }
}

} // verus!
