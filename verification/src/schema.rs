//! Definitions of composite types as plain values: what a derivation reads of
//! a structure or tagged-union declaration.
use vstd::prelude::*;

verus! {

/// One token at the top level of an attribute's argument list.
#[derive(Debug, PartialEq, Eq)]
pub enum AttrToken {
    /// An identifier, by its text.
    Ident(String),
    /// Any other token: punctuation, a literal or a bracketed group.
    Other,
}

/// An attribute on a declaration or on a field.
#[derive(Debug, PartialEq, Eq)]
pub struct AttributeDef {
    /// The attribute's path when it is a single plain identifier, as in `repr(..)`.
    pub path: Option<String>,
    /// The tokens between the brackets when the attribute has the list form `path(..)`.
    pub list: Option<Vec<AttrToken>>,
}

/// A parameter of a generic declaration.
#[derive(Debug, PartialEq, Eq)]
pub enum GenericParamDef {
    /// A type parameter, by its name.
    Type(String),
    /// A lifetime parameter, by its name with the leading quote.
    Lifetime(String),
    /// A const parameter, by its name.
    Const(String),
}

/// A named field of a structure or of a variant.
#[derive(Debug, PartialEq, Eq)]
pub struct FieldDef {
    pub name: String,
    /// The field's type as written.
    pub ty: String,
    pub attrs: Vec<AttributeDef>,
}

/// A structure with named fields, in declared order.
#[derive(Debug, PartialEq, Eq)]
pub struct StructDef {
    pub name: String,
    pub attrs: Vec<AttributeDef>,
    pub generics: Vec<GenericParamDef>,
    pub fields: Vec<FieldDef>,
}

/// The fields of one variant of a tagged union.
#[derive(Debug, PartialEq, Eq)]
pub enum VariantFields {
    /// `Name { a: A, b: B }`
    Named(Vec<FieldDef>),
    /// `Name(A, B)`: the types as written.
    Unnamed(Vec<String>),
    /// `Name`
    Unit,
}

/// One variant of a tagged union.
#[derive(Debug, PartialEq, Eq)]
pub struct VariantDef {
    pub name: String,
    pub fields: VariantFields,
}

/// A tagged union; a variant's tag is its position in `variants`.
#[derive(Debug, PartialEq, Eq)]
pub struct EnumDef {
    pub name: String,
    pub variants: Vec<VariantDef>,
}

/// A declaration that can be given the aggregate protocol.
#[derive(Debug, PartialEq, Eq)]
pub enum ItemDef {
    Struct(StructDef),
    Enum(EnumDef),
}

impl AttrToken {
    /// Whether the token is the identifier `word`.
    pub open spec fn is_word(&self, word: Seq<char>) -> bool {
        match self {
            AttrToken::Ident(text) => text@ == word,
            AttrToken::Other => false,
        }
    }
}

impl AttributeDef {
    /// Whether `word` stands as an identifier at the top level of the attribute's list.
    pub open spec fn lists(&self, word: Seq<char>) -> bool {
        match self.list {
            Some(tokens) => exists|j: int| 0 <= j < tokens@.len() && (#[trigger] tokens@[j]).is_word(word),
            None => false,
        }
    }

    /// Whether the attribute is `name(..)`.
    pub open spec fn is_list_named(&self, name: Seq<char>) -> bool {
        self.list is Some && match self.path {
            Some(p) => p@ == name,
            None => false,
        }
    }

    /// Computes [`AttributeDef::lists`].
    pub fn has_word(&self, word: &str) -> (found: bool)
        ensures
            found == self.lists(word@),
    {
        match &self.list {
            None => false,
            Some(tokens) => {
                let needle = String::from_str(word);
                let mut j: usize = 0;
                while j < tokens.len()
                    invariant
                        j <= tokens@.len(),
                        needle@ == word@,
                        self.list == Some(*tokens),
                        forall|k: int| 0 <= k < j ==> !(#[trigger] tokens@[k]).is_word(word@),
                    decreases tokens@.len() - j,
                {
                    match &tokens[j] {
                        AttrToken::Ident(text) => {
                            if *text == needle {
                                assert((self.list->0)@[j as int].is_word(word@));
                                return true;
                            }
                        },
                        AttrToken::Other => {},
                    }
                    j += 1;
                }
                false
            },
        }
    }

    /// Computes [`AttributeDef::is_list_named`].
    pub fn is_list(&self, name: &str) -> (named: bool)
        ensures
            named == self.is_list_named(name@),
    {
        match (&self.list, &self.path) {
            (Some(_), Some(p)) => {
                let wanted = String::from_str(name);
                *p == wanted
            },
            _ => false,
        }
    }
}

} // verus!
