//! The intermediate representation of declaration files: named types, their
//! shapes, and references between them by name.
use crate::ident::strings_view;
use vstd::prelude::*;

verus! {

/// The names that the declaration language provides itself.
#[derive(Clone, Copy, PartialEq, Eq, Structural, Debug)]
pub enum Builtin {
    Fn,
    PrimitiveAny,
    PrimitiveNumber,
    PrimitiveObject,
    PrimitiveBoolean,
    PrimitiveBigInt,
    PrimitiveString,
    PrimitiveSymbol,
    PrimitiveVoid,
    PrimitiveUndefined,
    PrimitiveNull,
    BuiltinDate,
    BuiltinPromise,
    Array,
    Optional,
}

/// The name of a type within its file.
#[derive(Debug)]
pub enum TypeIdent {
    Builtin(Builtin),
    LocalName(String),
    QualifiedName(Vec<String>),
    GeneratedName(String),
}

/// A type name as plain values, for comparing names.
pub enum IdentView {
    Builtin(Builtin),
    Local(Seq<char>),
    Qualified(Seq<Seq<char>>),
    Generated(Seq<char>),
}

impl View for TypeIdent {
    type V = IdentView;

    open spec fn view(&self) -> IdentView {
        match self {
            TypeIdent::Builtin(b) => IdentView::Builtin(*b),
            TypeIdent::LocalName(s) => IdentView::Local(s@),
            TypeIdent::QualifiedName(v) => IdentView::Qualified(strings_view(v@)),
            TypeIdent::GeneratedName(s) => IdentView::Generated(s@),
        }
    }
}

/// An application of a name: the referent, its type arguments, and the file
/// (an index into the table's files) whose names it is read against. For
/// the builtin `Fn` the arguments are the parameter types followed by the
/// return type.
#[derive(Debug)]
pub struct TypeRef {
    pub referent: TypeIdent,
    pub type_params: Vec<TypeRef>,
    pub file: usize,
}

#[derive(Debug)]
pub struct Param {
    pub name: String,
    pub type_info: TypeRef,
    pub is_variadic: bool,
}

/// A function; `class_name` is set for a method.
#[derive(Debug)]
pub struct Func {
    pub params: Vec<Param>,
    pub return_type: TypeRef,
    pub class_name: Option<TypeIdent>,
}

#[derive(Debug)]
pub struct Ctor {
    pub params: Vec<Param>,
}

#[derive(Debug)]
pub enum Member {
    Constructor(Ctor),
    Method(Func),
    Property(TypeRef),
}

#[derive(Debug)]
pub struct Indexer {
    pub readonly: bool,
    pub value_type: TypeRef,
}

#[derive(Debug)]
pub struct TypeParamConfig {
    pub name: String,
    pub default_type_arg: Option<TypeRef>,
}

/// An interface: named fields (each name once), an optional index
/// signature, the interfaces it extends and its type parameters.
#[derive(Debug)]
pub struct Interface {
    pub indexer: Option<Indexer>,
    pub fields: Vec<(String, TypeRef)>,
    pub extends: Vec<TypeRef>,
    pub type_params: Vec<TypeParamConfig>,
}

#[derive(Debug)]
pub struct Class {
    pub super_class: Option<TypeRef>,
    pub members: Vec<(String, Member)>,
    pub implements: Vec<TypeRef>,
    pub type_params: Vec<TypeParamConfig>,
}

#[derive(Debug)]
pub struct EnumMember {
    pub id: String,
    pub value: Option<String>,
}

/// A re-export of another file (an index into the table's files).
#[derive(Debug)]
pub enum NamespaceImport {
    All { src: usize },
    Default { src: usize },
    Named { src: usize, name: String },
}

/// The shape of a type.
#[derive(Debug)]
pub enum TypeInfo {
    Interface(Interface),
    Class(Class),
    Enum(Vec<EnumMember>),
    Alias(TypeRef),
    Ref(TypeRef),
    Union(Vec<TypeRef>),
    Intersection(Vec<TypeRef>),
    Tuple(Vec<TypeRef>),
    Array(TypeRef),
    Optional(TypeRef),
    Mapped(TypeRef),
    Func(Func),
    Ctor(Ctor),
    NamespaceImport(NamespaceImport),
    LitNumber,
    LitString,
    LitBoolean,
}

/// A named type of a file.
#[derive(Debug)]
pub struct Type {
    pub name: TypeIdent,
    pub info: TypeInfo,
    pub is_exported: bool,
    pub file: usize,
}

/// Every type of every file. `files` holds each file's path as its normal
/// components, root first; `project_roots` holds, for each file, how many
/// of those components lead to the directory of the project that holds it
/// (0 where none does).
#[derive(Debug)]
pub struct TypeTable {
    pub files: Vec<Vec<String>>,
    pub project_roots: Vec<usize>,
    pub types: Vec<Type>,
}

impl TypeTable {
    /// Each type belongs to a file of the table, and each file's project
    /// root lies above its last component; within one file a name names
    /// one type, and within an interface or class a name one field or
    /// member.
    pub open spec fn wf(&self) -> bool {
        &&& forall|i: int| 0 <= i < self.types@.len() ==> self.types@[i].file < self.files@.len()
        &&& forall|i: int, j: int|
            0 <= i < j < self.types@.len() ==> !((#[trigger] self.types@[i]).file == (#[trigger] self.types@[j]).file
                && self.types@[i].name@ == self.types@[j].name@)
        &&& forall|i: int| 0 <= i < self.types@.len() ==> #[trigger] names_unique(self.types@[i].info)
        &&& self.project_roots@.len() == self.files@.len()
        &&& forall|f: int| 0 <= f < self.files@.len() ==> self.project_roots@[f] < self.files@[f]@.len()
    }
}

/// The fields of an interface, or the members of a class, have distinct
/// names.
pub open spec fn names_unique(info: TypeInfo) -> bool {
    match info {
        TypeInfo::Interface(i) => forall|a: int, b: int|
            0 <= a < b < i.fields@.len() ==> (#[trigger] i.fields@[a]).0@ != (#[trigger] i.fields@[b]).0@,
        TypeInfo::Class(c) => forall|a: int, b: int|
            0 <= a < b < c.members@.len() ==> (#[trigger] c.members@[a]).0@ != (#[trigger] c.members@[b]).0@,
        _ => true,
    }
}

pub fn ident_eq(a: &TypeIdent, b: &TypeIdent) -> (r: bool)
    ensures
        r == (a@ == b@),
{
    match (a, b) {
        (TypeIdent::Builtin(x), TypeIdent::Builtin(y)) => *x == *y,
        (TypeIdent::LocalName(x), TypeIdent::LocalName(y)) => *x == *y,
        (TypeIdent::GeneratedName(x), TypeIdent::GeneratedName(y)) => *x == *y,
        (TypeIdent::QualifiedName(x), TypeIdent::QualifiedName(y)) => {
            if x.len() != y.len() {
                assert(strings_view(x@).len() != strings_view(y@).len());
                return false;
            }
            let mut i: usize = 0;
            while i < x.len()
                invariant
                    a@ == IdentView::Qualified(strings_view(x@)),
                    b@ == IdentView::Qualified(strings_view(y@)),
                    x@.len() == y@.len(),
                    i <= x@.len(),
                    forall|j: int| 0 <= j < i ==> x@[j]@ == y@[j]@,
                decreases x@.len() - i,
            {
                if !(x[i] == y[i]) {
                    assert(strings_view(x@)[i as int] != strings_view(y@)[i as int]);
                    assert(strings_view(x@) != strings_view(y@));
                    return false;
                }
                i += 1;
            }
            assert(strings_view(x@) =~= strings_view(y@));
            true
        },
        _ => false,
    }
}

/// The first type of the given file with the given name.
pub open spec fn spec_lookup(table: &TypeTable, file: usize, name: IdentView) -> Option<int> {
    if exists|i: int|
        0 <= i < table.types@.len() && table.types@[i].file == file && table.types@[i].name@
            == name {
        Some(
            choose|i: int|
                0 <= i < table.types@.len() && table.types@[i].file == file
                    && table.types@[i].name@ == name && forall|j: int|
                    0 <= j < i ==> !(table.types@[j].file == file && table.types@[j].name@
                        == name),
        )
    } else {
        None
    }
}

}
