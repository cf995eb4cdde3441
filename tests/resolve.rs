use ts_bindgen::ir::{
    Builtin, Class, EnumMember, Indexer, Interface, NamespaceImport, Type, TypeIdent, TypeInfo,
    TypeRef, TypeTable,
};
use ts_bindgen::resolve::{
    get_field_count, is_potentially_undefined, is_uninhabited, resolve_target_type,
    serialization_type, Resolved, SerializationType,
};

fn b(x: Builtin) -> TypeRef {
    TypeRef { referent: TypeIdent::Builtin(x), type_params: vec![], file: 0 }
}

fn local(n: &str) -> TypeRef {
    TypeRef { referent: TypeIdent::LocalName(n.to_string()), type_params: vec![], file: 0 }
}

fn ty(n: &str, info: TypeInfo) -> Type {
    Type { name: TypeIdent::LocalName(n.to_string()), info, is_exported: true, file: 0 }
}

fn iface(fields: Vec<(&str, TypeRef)>, indexer: Option<TypeRef>) -> TypeInfo {
    TypeInfo::Interface(Interface {
        indexer: indexer.map(|t| Indexer { readonly: false, value_type: t }),
        fields: fields.into_iter().map(|(n, t)| (n.to_string(), t)).collect(),
        extends: vec![],
        type_params: vec![],
    })
}

fn table(types: Vec<Type>) -> TypeTable {
    TypeTable {
        files: vec![vec!["p".to_string(), "m.d.ts".to_string()]],
        project_roots: vec![0],
        types,
    }
}

#[test]
fn aliases_resolve_to_their_end() {
    let t = table(vec![
        ty("A", TypeInfo::Alias(local("B"))),
        ty("B", TypeInfo::Alias(local("C"))),
        ty("C", iface(vec![("x", b(Builtin::PrimitiveNumber))], None)),
    ]);
    assert_eq!(resolve_target_type(&t, &local("A")), Some(Resolved::At(2)));
    assert_eq!(resolve_target_type(&t, &b(Builtin::PrimitiveString)), Some(Resolved::Builtin(Builtin::PrimitiveString)));
    assert_eq!(resolve_target_type(&t, &local("Missing")), None);
}

#[test]
fn alias_cycles_resolve_nowhere() {
    let t = table(vec![ty("A", TypeInfo::Alias(local("B"))), ty("B", TypeInfo::Alias(local("A")))]);
    assert_eq!(resolve_target_type(&t, &local("A")), None);
}

#[test]
fn alias_to_builtin_resolves_to_the_builtin() {
    let t = table(vec![ty("N", TypeInfo::Alias(b(Builtin::PrimitiveNumber)))]);
    assert_eq!(resolve_target_type(&t, &local("N")), Some(Resolved::Builtin(Builtin::PrimitiveNumber)));
}

#[test]
fn named_import_resolves_in_its_source_file() {
    let t = TypeTable {
        files: vec![
            vec!["p".to_string(), "a.d.ts".to_string()],
            vec!["p".to_string(), "b.d.ts".to_string()],
        ],
        project_roots: vec![0, 0],
        types: vec![
            Type {
                name: TypeIdent::LocalName("X".to_string()),
                info: TypeInfo::NamespaceImport(NamespaceImport::Named { src: 1, name: "Y".to_string() }),
                is_exported: false,
                file: 0,
            },
            Type {
                name: TypeIdent::LocalName("Y".to_string()),
                info: TypeInfo::Enum(vec![]),
                is_exported: true,
                file: 1,
            },
        ],
    };
    assert_eq!(resolve_target_type(&t, &local("X")), Some(Resolved::At(1)));
}

#[test]
fn serialization_strategies() {
    let t = table(vec![
        ty("I", iface(vec![], None)),
        ty(
            "C",
            TypeInfo::Class(Class { super_class: None, members: vec![], implements: vec![], type_params: vec![] }),
        ),
        ty("F", TypeInfo::Alias(TypeRef {
            referent: TypeIdent::Builtin(Builtin::Fn),
            type_params: vec![b(Builtin::PrimitiveVoid)],
            file: 0,
        })),
    ]);
    assert_eq!(serialization_type(&t, &b(Builtin::PrimitiveNumber)), SerializationType::Raw);
    assert_eq!(serialization_type(&t, &b(Builtin::PrimitiveString)), SerializationType::Raw);
    assert_eq!(serialization_type(&t, &b(Builtin::PrimitiveObject)), SerializationType::SerdeJson);
    assert_eq!(serialization_type(&t, &local("I")), SerializationType::SerdeJson);
    assert_eq!(serialization_type(&t, &local("C")), SerializationType::Raw);
    assert_eq!(serialization_type(&t, &local("F")), SerializationType::Fn);
    assert_eq!(serialization_type(&t, &local("Nope")), SerializationType::SerdeJson);
    let opt_num = TypeRef {
        referent: TypeIdent::Builtin(Builtin::Optional),
        type_params: vec![b(Builtin::PrimitiveNumber)],
        file: 0,
    };
    assert_eq!(serialization_type(&t, &opt_num), SerializationType::Raw);
    let opt_iface = TypeRef {
        referent: TypeIdent::Builtin(Builtin::Optional),
        type_params: vec![local("I")],
        file: 0,
    };
    assert_eq!(serialization_type(&t, &opt_iface), SerializationType::SerdeJson);
}

#[test]
fn uninhabited_types() {
    let t = table(vec![
        ty("U", TypeInfo::Union(vec![b(Builtin::PrimitiveNull), b(Builtin::PrimitiveUndefined)])),
        ty("V", TypeInfo::Union(vec![b(Builtin::PrimitiveNull), b(Builtin::PrimitiveNumber)])),
    ]);
    assert!(is_uninhabited(&t, &b(Builtin::PrimitiveVoid)));
    assert!(is_uninhabited(&t, &b(Builtin::PrimitiveNull)));
    assert!(!is_uninhabited(&t, &b(Builtin::PrimitiveNumber)));
    assert!(is_uninhabited(&t, &local("U")));
    assert!(!is_uninhabited(&t, &local("V")));
}

#[test]
fn potentially_undefined_types() {
    let t = table(vec![
        ty("U", TypeInfo::Union(vec![b(Builtin::PrimitiveNumber), b(Builtin::PrimitiveUndefined)])),
        ty("V", TypeInfo::Union(vec![b(Builtin::PrimitiveNumber), b(Builtin::PrimitiveString)])),
        ty("O", TypeInfo::Optional(b(Builtin::PrimitiveNumber))),
        ty("I", iface(vec![], None)),
        ty("X", TypeInfo::Intersection(vec![local("O"), local("I")])),
    ]);
    assert!(!is_potentially_undefined(&t, &local("X")));
    assert!(is_potentially_undefined(&t, &b(Builtin::PrimitiveAny)));
    assert!(is_potentially_undefined(&t, &b(Builtin::PrimitiveVoid)));
    assert!(!is_potentially_undefined(&t, &b(Builtin::PrimitiveString)));
    assert!(is_potentially_undefined(&t, &local("U")));
    assert!(!is_potentially_undefined(&t, &local("V")));
    assert!(is_potentially_undefined(&t, &local("O")));
    assert!(!is_potentially_undefined(&t, &local("I")));
}

#[test]
fn field_counts() {
    let n = || b(Builtin::PrimitiveNumber);
    let t = table(vec![
        ty("Two", iface(vec![("a", n()), ("b", n())], None)),
        ty("Idx", iface(vec![("a", n())], Some(n()))),
        ty("E", TypeInfo::Enum(vec![
            EnumMember { id: "A".to_string(), value: None },
            EnumMember { id: "B".to_string(), value: None },
            EnumMember { id: "C".to_string(), value: None },
        ])),
        ty("U", TypeInfo::Union(vec![local("Two"), local("E")])),
        ty("X", TypeInfo::Intersection(vec![local("Two"), local("E")])),
        ty("T", TypeInfo::Tuple(vec![n(), n(), n(), n()])),
        ty("M", TypeInfo::Mapped(n())),
    ]);
    assert_eq!(get_field_count(&t, &local("Two")), 2);
    assert_eq!(get_field_count(&t, &local("Idx")), usize::MAX);
    assert_eq!(get_field_count(&t, &local("E")), 3);
    assert_eq!(get_field_count(&t, &local("U")), 3);
    assert_eq!(get_field_count(&t, &local("X")), 2);
    assert_eq!(get_field_count(&t, &local("T")), 4);
    assert_eq!(get_field_count(&t, &local("M")), usize::MAX);
    assert_eq!(get_field_count(&t, &n()), 0);
}
