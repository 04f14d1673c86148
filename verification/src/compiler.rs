//! The derivations: from the definition of a composite type to its proxies.
//! A derivation reads the definition alone; the types of the fields are
//! looked up later, when a proxy is resolved against a registry or a table.
use vstd::prelude::*;
use crate::aggregate::{
    AggregateBody, AggregateField, AggregateProxy, AggregateVariant, VariantForm,
};
use crate::error::BuildError;
use crate::kernel_arg::{KernelArgField, KernelArgProxy};
use crate::naming::{decimal, decimal_text, prefixed, suffixed};
use crate::proxy::{MarkerArg, ProxyField, ValueProxy};
use crate::schema::{
    AttributeDef, EnumDef, FieldDef, GenericParamDef, ItemDef, StructDef, VariantDef,
    VariantFields,
};

verus! {

/// Whether `attr` declares the fixed C layout: `repr(..)` with `C` in the list.
pub open spec fn is_repr_c(attr: AttributeDef) -> bool {
    attr.is_list_named("repr"@) && attr.lists("C"@)
}

/// Whether one of `attrs` declares the fixed C layout.
pub open spec fn has_repr_c(attrs: Seq<AttributeDef>) -> bool {
    exists|i: int| 0 <= i < attrs.len() && is_repr_c(#[trigger] attrs[i])
}

/// Whether `attr` takes a field out of argument marshaling: any attribute in
/// list form with `exclude` or `ignore` in the list.
pub open spec fn excludes(attr: AttributeDef) -> bool {
    attr.lists("exclude"@) || attr.lists("ignore"@)
}

/// Whether one of `attrs` takes the field out of argument marshaling.
pub open spec fn is_excluded(attrs: Seq<AttributeDef>) -> bool {
    exists|i: int| 0 <= i < attrs.len() && excludes(#[trigger] attrs[i])
}

/// Whether one of `generics` is a const parameter.
pub open spec fn has_const_param(generics: Seq<GenericParamDef>) -> bool {
    exists|i: int| 0 <= i < generics.len() && (#[trigger] generics[i]) is Const
}

/// Whether `marker` is the marker argument of the parameter `param`: a type
/// parameter stands for itself, a lifetime for a reference of that lifetime.
pub open spec fn is_marker_of(marker: MarkerArg, param: GenericParamDef) -> bool {
    match param {
        GenericParamDef::Type(name) => match marker {
            MarkerArg::Type(text) => text@ == name@,
            _ => false,
        },
        GenericParamDef::Lifetime(name) => match marker {
            MarkerArg::LifetimeRef(text) => text@ == name@,
            _ => false,
        },
        GenericParamDef::Const(_) => false,
    }
}

/// Whether `field` is the proxy field of the declared field `def`.
pub open spec fn is_proxy_field_of(field: ProxyField, def: FieldDef) -> bool {
    &&& field.name@ == def.name@
    &&& field.setter@ == "set_"@ + def.name@
    &&& field.ty@ == def.ty@
}

/// Whether `field` is the kernel argument field of the declared field `def`.
pub open spec fn is_kernel_arg_field_of(field: KernelArgField, def: FieldDef) -> bool {
    &&& field.name@ == def.name@
    &&& field.ty@ == def.ty@
    &&& field.marshaled == !is_excluded(def.attrs@)
}

/// Whether `field` is the aggregate field of the declared field `def`.
pub open spec fn is_aggregate_field_of(field: AggregateField, def: FieldDef) -> bool {
    field.binding@ == def.name@ && field.ty@ == def.ty@
}

/// Whether `fields` are the aggregate fields of the declared `defs`, one for one.
pub open spec fn are_aggregate_fields_of(fields: Seq<AggregateField>, defs: Seq<FieldDef>) -> bool {
    fields.len() == defs.len() && forall|i: int|
        0 <= i < fields.len() ==> is_aggregate_field_of(#[trigger] fields[i], defs[i])
}

/// Whether `fields` are the aggregate fields of a variant written with the
/// types `types` alone: the field at position `i` is bound to `f` and the
/// decimal numeral of `i`.
pub open spec fn are_positional_fields_of(fields: Seq<AggregateField>, types: Seq<String>) -> bool {
    fields.len() == types.len() && forall|i: int|
        0 <= i < fields.len() ==> (#[trigger] fields[i]).binding@ == "f"@ + decimal(i as nat)
            && fields[i].ty@ == types[i]@
}

/// Whether `variant` is the aggregate variant of the declared variant `def`.
pub open spec fn is_aggregate_variant_of(variant: AggregateVariant, def: VariantDef) -> bool {
    variant.name@ == def.name@ && match def.fields {
        VariantFields::Named(defs) => variant.form == VariantForm::Named
            && are_aggregate_fields_of(variant.fields@, defs@),
        VariantFields::Unnamed(types) => variant.form == VariantForm::Unnamed
            && are_positional_fields_of(variant.fields@, types@),
        VariantFields::Unit => variant.form == VariantForm::Unit && variant.fields@.len() == 0,
    }
}

/// Whether `proxy` is the aggregate proxy of the structure `def`.
pub open spec fn is_aggregate_of_struct(proxy: AggregateProxy, def: StructDef) -> bool {
    proxy.name@ == def.name@ && match proxy.body {
        AggregateBody::Struct(fields) => are_aggregate_fields_of(fields@, def.fields@),
        AggregateBody::Union(_) => false,
    }
}

/// Whether `proxy` is the aggregate proxy of the tagged union `def`.
pub open spec fn is_aggregate_of_enum(proxy: AggregateProxy, def: EnumDef) -> bool {
    proxy.name@ == def.name@ && match proxy.body {
        AggregateBody::Struct(_) => false,
        AggregateBody::Union(variants) => variants@.len() == def.variants@.len() && forall|k: int|
            0 <= k < variants@.len() ==> is_aggregate_variant_of(
                #[trigger] variants@[k],
                def.variants@[k],
            ),
    }
}

/// Computes [`is_excluded`].
fn field_is_excluded(attrs: &Vec<AttributeDef>) -> (excluded: bool)
    ensures
        excluded == is_excluded(attrs@),
{
    let mut i: usize = 0;
    while i < attrs.len()
        invariant
            i <= attrs@.len(),
            forall|j: int| 0 <= j < i ==> !excludes(#[trigger] attrs@[j]),
        decreases attrs@.len() - i,
    {
        if attrs[i].has_word("exclude") || attrs[i].has_word("ignore") {
            assert(excludes(attrs@[i as int]));
            return true;
        }
        i += 1;
    }
    false
}

/// The aggregate fields of named fields, one for one.
fn aggregate_fields(defs: &Vec<FieldDef>) -> (fields: Vec<AggregateField>)
    ensures
        are_aggregate_fields_of(fields@, defs@),
{
    let mut fields: Vec<AggregateField> = Vec::new();
    let mut i: usize = 0;
    while i < defs.len()
        invariant
            i <= defs@.len(),
            fields@.len() == i,
            forall|j: int| 0 <= j < i ==> is_aggregate_field_of(#[trigger] fields@[j], defs@[j]),
        decreases defs@.len() - i,
    {
        fields.push(AggregateField { binding: defs[i].name.clone(), ty: defs[i].ty.clone() });
        i += 1;
    }
    fields
}

/// The aggregate fields of fields written by their types alone.
fn positional_fields(types: &Vec<String>) -> (fields: Vec<AggregateField>)
    ensures
        are_positional_fields_of(fields@, types@),
{
    let mut fields: Vec<AggregateField> = Vec::new();
    let mut i: usize = 0;
    while i < types.len()
        invariant
            i <= types@.len(),
            fields@.len() == i,
            forall|j: int|
                0 <= j < i ==> (#[trigger] fields@[j]).binding@ == "f"@ + decimal(j as nat)
                    && fields@[j].ty@ == types@[j]@,
        decreases types@.len() - i,
    {
        let number = decimal_text(i);
        let binding = prefixed("f", &number);
        fields.push(AggregateField { binding, ty: types[i].clone() });
        i += 1;
    }
    fields
}

/// Derives the proxies of composite types from their definitions.
pub struct Compiler;

impl Compiler {
    /// The path of the module that holds the tracing language.
    pub fn lang_path(&self) -> (path: String)
        ensures
            path@ == "::luisa_compute::lang"@,
    {
        String::from_str("::luisa_compute::lang")
    }

    /// The path of the module that holds the kernel runtime.
    pub fn runtime_path(&self) -> (path: String)
        ensures
            path@ == "::luisa_compute::runtime"@,
    {
        String::from_str("::luisa_compute::runtime")
    }

    /// Checks that the declaration has the fixed C layout: that one of its
    /// attributes is `repr(..)` with `C` in the list. A declaration without it
    /// has a layout that the host is free to choose, so it fails with
    /// `LayoutMismatch`.
    pub fn check_repr_c(&self, attributes: &Vec<AttributeDef>) -> (verdict: Result<(), BuildError>)
        ensures
            verdict is Ok <==> has_repr_c(attributes@),
            verdict is Err ==> verdict == Err::<(), BuildError>(BuildError::LayoutMismatch),
    {
        let mut i: usize = 0;
        while i < attributes.len()
            invariant
                i <= attributes@.len(),
                forall|j: int| 0 <= j < i ==> !is_repr_c(#[trigger] attributes@[j]),
            decreases attributes@.len() - i,
        {
            if attributes[i].is_list("repr") && attributes[i].has_word("C") {
                assert(is_repr_c(attributes@[i as int]));
                return Ok(());
            }
            i += 1;
        }
        Err(BuildError::LayoutMismatch)
    }

    /// Derives the kernel argument proxy of a structure: every declared
    /// field, in declared order, with the fields marked `exclude` or `ignore`
    /// taken out of marshaling; the parameter type is named after the
    /// structure, with `Var` behind.
    pub fn derive_kernel_arg(&self, struct_: &StructDef) -> (proxy: KernelArgProxy)
        ensures
            proxy.name@ == struct_.name@,
            proxy.parameter_name@ == struct_.name@ + "Var"@,
            proxy.fields@.len() == struct_.fields@.len(),
            forall|i: int|
                0 <= i < proxy.fields@.len() ==> is_kernel_arg_field_of(
                    #[trigger] proxy.fields@[i],
                    struct_.fields@[i],
                ),
    {
        let mut fields: Vec<KernelArgField> = Vec::new();
        let mut i: usize = 0;
        while i < struct_.fields.len()
            invariant
                i <= struct_.fields@.len(),
                fields@.len() == i,
                forall|j: int|
                    0 <= j < i ==> is_kernel_arg_field_of(#[trigger] fields@[j], struct_.fields@[j]),
            decreases struct_.fields@.len() - i,
        {
            let def = &struct_.fields[i];
            let excluded = field_is_excluded(&def.attrs);
            fields.push(
                KernelArgField { name: def.name.clone(), ty: def.ty.clone(), marshaled: !excluded },
            );
            i += 1;
        }
        KernelArgProxy {
            name: struct_.name.clone(),
            parameter_name: suffixed(&struct_.name, "Var"),
            fields,
        }
    }

    /// Derives the value proxy of a structure: the names of its expression
    /// handle, variable handle and constructor record (the structure's name
    /// with `Expr`, `Var` and `Init` behind), one marker argument for each
    /// parameter, and for each field, in declared order, its accessor and the
    /// operation that sets it (`set_` and the field's name).
    ///
    /// It fails with `LayoutMismatch` when the structure is not declared with
    /// the fixed C layout, and otherwise with `UnsupportedGenericShape` when
    /// it takes a const parameter.
    pub fn derive_value(&self, struct_: &StructDef) -> (result: Result<ValueProxy, BuildError>)
        ensures
            match result {
                Ok(proxy) => {
                    &&& has_repr_c(struct_.attrs@)
                    &&& !has_const_param(struct_.generics@)
                    &&& proxy.name@ == struct_.name@
                    &&& proxy.expr_name@ == struct_.name@ + "Expr"@
                    &&& proxy.var_name@ == struct_.name@ + "Var"@
                    &&& proxy.init_name@ == struct_.name@ + "Init"@
                    &&& proxy.marker_args@.len() == struct_.generics@.len()
                    &&& forall|i: int|
                        0 <= i < proxy.marker_args@.len() ==> is_marker_of(
                            #[trigger] proxy.marker_args@[i],
                            struct_.generics@[i],
                        )
                    &&& proxy.fields@.len() == struct_.fields@.len()
                    &&& forall|i: int|
                        0 <= i < proxy.fields@.len() ==> is_proxy_field_of(
                            #[trigger] proxy.fields@[i],
                            struct_.fields@[i],
                        )
                },
                Err(e) => if has_repr_c(struct_.attrs@) {
                    has_const_param(struct_.generics@) && e == BuildError::UnsupportedGenericShape
                } else {
                    e == BuildError::LayoutMismatch
                },
            },
    {
        match self.check_repr_c(&struct_.attrs) {
            Err(e) => {
                return Err(e);
            },
            Ok(()) => {},
        }
        let mut marker_args: Vec<MarkerArg> = Vec::new();
        let mut g: usize = 0;
        while g < struct_.generics.len()
            invariant
                g <= struct_.generics@.len(),
                has_repr_c(struct_.attrs@),
                marker_args@.len() == g,
                forall|j: int|
                    0 <= j < g ==> is_marker_of(#[trigger] marker_args@[j], struct_.generics@[j]),
            decreases struct_.generics@.len() - g,
        {
            match &struct_.generics[g] {
                GenericParamDef::Type(name) => {
                    marker_args.push(MarkerArg::Type(name.clone()));
                },
                GenericParamDef::Lifetime(name) => {
                    marker_args.push(MarkerArg::LifetimeRef(name.clone()));
                },
                GenericParamDef::Const(_) => {
                    assert(struct_.generics@[g as int] is Const);
                    return Err(BuildError::UnsupportedGenericShape);
                },
            }
            g += 1;
        }
        assert(!has_const_param(struct_.generics@)) by {
            if has_const_param(struct_.generics@) {
                let i = choose|i: int|
                    0 <= i < struct_.generics@.len() && (#[trigger] struct_.generics@[i]) is Const;
                assert(is_marker_of(marker_args@[i], struct_.generics@[i]));
            }
        }
        let mut fields: Vec<ProxyField> = Vec::new();
        let mut i: usize = 0;
        while i < struct_.fields.len()
            invariant
                i <= struct_.fields@.len(),
                fields@.len() == i,
                forall|j: int|
                    0 <= j < i ==> is_proxy_field_of(#[trigger] fields@[j], struct_.fields@[j]),
            decreases struct_.fields@.len() - i,
        {
            let def = &struct_.fields[i];
            fields.push(
                ProxyField {
                    name: def.name.clone(),
                    setter: prefixed("set_", &def.name),
                    ty: def.ty.clone(),
                },
            );
            i += 1;
        }
        Ok(
            ValueProxy {
                name: struct_.name.clone(),
                expr_name: suffixed(&struct_.name, "Expr"),
                var_name: suffixed(&struct_.name, "Var"),
                init_name: suffixed(&struct_.name, "Init"),
                marker_args,
                fields,
            },
        )
    }

    /// Derives the aggregate proxy of a structure: its fields in declared
    /// order, each bound to its own name.
    pub fn derive_aggregate_for_struct(&self, struct_: &StructDef) -> (proxy: AggregateProxy)
        ensures
            is_aggregate_of_struct(proxy, *struct_),
    {
        AggregateProxy {
            name: struct_.name.clone(),
            body: AggregateBody::Struct(aggregate_fields(&struct_.fields)),
        }
    }

    /// Derives the aggregate proxy of a tagged union: its variants in
    /// declared order, so that a variant's tag is its position, each with its
    /// fields in declared order. A field without a name is bound to `f` and
    /// its position.
    pub fn derive_aggregate_for_enum(&self, enum_: &EnumDef) -> (proxy: AggregateProxy)
        ensures
            is_aggregate_of_enum(proxy, *enum_),
    {
        let mut variants: Vec<AggregateVariant> = Vec::new();
        let mut k: usize = 0;
        while k < enum_.variants.len()
            invariant
                k <= enum_.variants@.len(),
                variants@.len() == k,
                forall|j: int|
                    0 <= j < k ==> is_aggregate_variant_of(
                        #[trigger] variants@[j],
                        enum_.variants@[j],
                    ),
            decreases enum_.variants@.len() - k,
        {
            let def = &enum_.variants[k];
            let variant = match &def.fields {
                VariantFields::Named(defs) => AggregateVariant {
                    name: def.name.clone(),
                    form: VariantForm::Named,
                    fields: aggregate_fields(defs),
                },
                VariantFields::Unnamed(types) => AggregateVariant {
                    name: def.name.clone(),
                    form: VariantForm::Unnamed,
                    fields: positional_fields(types),
                },
                VariantFields::Unit => AggregateVariant {
                    name: def.name.clone(),
                    form: VariantForm::Unit,
                    fields: Vec::new(),
                },
            };
            assert(is_aggregate_variant_of(variant, *def));
            variants.push(variant);
            k += 1;
        }
        AggregateProxy { name: enum_.name.clone(), body: AggregateBody::Union(variants) }
    }

    /// Derives the aggregate proxy of a declaration, structure or tagged union.
    pub fn derive_aggregate(&self, item: &ItemDef) -> (proxy: AggregateProxy)
        ensures
            match item {
                ItemDef::Struct(struct_) => is_aggregate_of_struct(proxy, *struct_),
                ItemDef::Enum(enum_) => is_aggregate_of_enum(proxy, *enum_),
            },
    {
        match item {
            ItemDef::Struct(struct_) => self.derive_aggregate_for_struct(struct_),
            ItemDef::Enum(enum_) => self.derive_aggregate_for_enum(enum_),
        }
    }
}

} // verus!
