use ts_bindgen::ident::Identifier;
use ts_bindgen::ir::{Builtin, Interface, Type, TypeIdent, TypeInfo, TypeRef, TypeTable};
use ts_bindgen::modpath::{mod_path, name_segments, path_segments, relative_ns};
use ts_bindgen::modtree::{build_mod_tree, mod_def_from, MutModDef};

fn comps(p: &str) -> Vec<String> {
    p.split('/').filter(|c| !c.is_empty()).map(|c| c.to_string()).collect()
}

fn texts(ids: &[Identifier]) -> Vec<String> {
    ids.iter().map(|i| i.render()).collect()
}

fn number() -> TypeRef {
    TypeRef { referent: TypeIdent::Builtin(Builtin::PrimitiveNumber), type_params: vec![], file: 0 }
}

fn iface_type(name: TypeIdent, file: usize) -> Type {
    Type {
        name,
        info: TypeInfo::Interface(Interface {
            indexer: None,
            fields: vec![("x".to_string(), number())],
            extends: vec![],
            type_params: vec![],
        }),
        is_exported: true,
        file,
    }
}

#[test]
fn path_segments_stop_at_the_vendor_directory() {
    let p = comps("/home/u/proj/node_modules/pkg/lib/index.d.ts");
    assert_eq!(texts(&path_segments(&p)), vec!["pkg", "lib", "index"]);
}

#[test]
fn path_segments_without_vendor_directory_keep_everything() {
    let p = comps("/p/m.d.ts");
    assert_eq!(texts(&path_segments(&p)), vec!["p", "m"]);
}

#[test]
fn path_segments_use_the_last_vendor_directory() {
    let p = comps("/a/node_modules/b/node_modules/c/d.ts");
    assert_eq!(texts(&path_segments(&p)), vec!["c", "d"]);
}

#[test]
fn path_segments_empty_exactly_when_nothing_lies_outside_the_vendor_directory() {
    assert!(path_segments(&comps("/a/node_modules")).is_empty());
    assert!(path_segments(&comps("/")).is_empty());
    assert!(!path_segments(&comps("/a/node_modules/x")).is_empty());
    assert!(!path_segments(&comps("/a")).is_empty());
}

#[test]
fn name_segments_of_a_qualified_name() {
    let n = TypeIdent::QualifiedName(vec!["NS".to_string(), "Inner".to_string(), "T".to_string()]);
    assert_eq!(texts(&name_segments(&n)), vec!["ns", "inner"]);
    assert!(name_segments(&TypeIdent::LocalName("T".to_string())).is_empty());
}

#[test]
fn mod_path_appends_the_namespace() {
    let n = TypeIdent::QualifiedName(vec!["Util".to_string(), "T".to_string()]);
    assert_eq!(texts(&mod_path(&comps("/p/a.d.ts"), &n)), vec!["p", "a", "util"]);
}

#[test]
fn relative_path_climbs_to_the_root_then_descends() {
    let to = path_segments(&comps("/p/b.d.ts"));
    assert_eq!(texts(&relative_ns(2, &to)).join("::"), "super::super::p::b");
    assert_eq!(texts(&relative_ns(0, &to)).join("::"), "p::b");
}

#[test]
fn module_tree_merges_shared_prefixes() {
    let table = TypeTable {
        files: vec![comps("/p/m.d.ts"), comps("/p/n.d.ts")],
        project_roots: vec![0, 0],
        types: vec![
            iface_type(TypeIdent::LocalName("Point".to_string()), 0),
            iface_type(TypeIdent::LocalName("Other".to_string()), 1),
        ],
    };
    let root = mod_def_from(&table);
    assert_eq!(root.name.render(), "root");
    assert_eq!(root.children.len(), 1);
    let p = &root.children[0];
    assert_eq!(p.name.render(), "p");
    assert!(p.types.is_empty());
    assert_eq!(p.children.len(), 2);
    assert_eq!(p.children[0].name.render(), "m");
    assert_eq!(p.children[0].types, vec![0]);
    assert_eq!(p.children[1].name.render(), "n");
    assert_eq!(p.children[1].types, vec![1]);
}

#[test]
fn module_tree_is_prefix_closed() {
    let table = TypeTable {
        files: vec![comps("/a/b/c.d.ts")],
        project_roots: vec![0],
        types: vec![iface_type(
            TypeIdent::QualifiedName(vec!["Ns".to_string(), "T".to_string()]),
            0,
        )],
    };
    let tree: MutModDef = build_mod_tree(&table);
    let names: Vec<String> = tree.nodes.iter().map(|n| n.name.render()).collect();
    assert_eq!(names, vec!["root", "a", "b", "c", "ns"]);
    for (i, n) in tree.nodes.iter().enumerate().skip(1) {
        assert!(n.parent < i);
    }
    assert_eq!(tree.nodes[3].types, vec![0]);
    assert_eq!(tree.nodes[4].types, vec![0]);
    assert_eq!(tree.nodes[4].parent, 3);
}

#[test]
fn add_child_mod_reuses_a_child_of_the_same_name() {
    let mut tree = MutModDef::new(ts_bindgen::modpath::plain_ident("root".to_string()));
    let a = tree.add_child_mod(0, ts_bindgen::ident::to_ident("a"), vec![1]);
    let b = tree.add_child_mod(0, ts_bindgen::ident::to_ident("a"), vec![2]);
    assert_eq!(a, b);
    assert_eq!(tree.nodes[a].types, vec![1, 2]);
    assert_eq!(tree.nodes[0].children, vec![a]);
}

#[test]
fn insert_path_with_no_segments_fills_the_root() {
    let mut tree = MutModDef::new(ts_bindgen::modpath::plain_ident("root".to_string()));
    let at = tree.insert_path(&vec![], vec![7]);
    assert_eq!(at, 0);
    assert_eq!(tree.nodes[0].types, vec![7]);
}

#[test]
fn project_root_is_the_deepest_manifest_directory() {
    assert_eq!(ts_bindgen::typegen::project_root_len(&vec![false, true, false, true, false]), 4);
    assert_eq!(ts_bindgen::typegen::project_root_len(&vec![false, false]), 0);
    assert_eq!(ts_bindgen::typegen::project_root_len(&vec![]), 0);
}

#[test]
fn sibling_modules_keep_distinct_names() {
    let table = TypeTable {
        files: vec![comps("/p/m.d.ts"), comps("/p/m.d.ts"), comps("/q/m.d.ts")],
        project_roots: vec![0, 0, 0],
        types: vec![
            iface_type(TypeIdent::LocalName("A".to_string()), 0),
            iface_type(TypeIdent::LocalName("B".to_string()), 1),
            iface_type(TypeIdent::LocalName("C".to_string()), 2),
        ],
    };
    let root = mod_def_from(&table);
    let names: Vec<String> = root.children.iter().map(|c| c.name.render()).collect();
    assert_eq!(names, vec!["p", "q"]);
    assert_eq!(root.children[0].children.len(), 1);
    assert_eq!(root.children[0].children[0].types, vec![0, 1]);
}
