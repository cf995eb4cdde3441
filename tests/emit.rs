use ts_bindgen::funcs::{
    exposed_to_js_param_type, exposed_to_js_return_type, exposed_to_rust_param_type,
    exposed_to_rust_return_type, render_raw_return_to_js, InternalFunc, WrapperFunc,
};
use ts_bindgen::iface::interface_struct;
use ts_bindgen::ir::{
    Builtin, Class, Func, Indexer, Interface, Member, NamespaceImport, Param, Type, TypeIdent,
    TypeInfo, TypeParamConfig, TypeRef, TypeTable,
};
use ts_bindgen::typegen::{emit_type, generate, EmitError};
use ts_bindgen::union::union_cases;

fn b(x: Builtin) -> TypeRef {
    TypeRef { referent: TypeIdent::Builtin(x), type_params: vec![], file: 0 }
}

fn local(n: &str) -> TypeRef {
    TypeRef { referent: TypeIdent::LocalName(n.to_string()), type_params: vec![], file: 0 }
}

fn func_ref(params: Vec<TypeRef>) -> TypeRef {
    TypeRef { referent: TypeIdent::Builtin(Builtin::Fn), type_params: params, file: 0 }
}

fn ty(n: &str, info: TypeInfo) -> Type {
    Type { name: TypeIdent::LocalName(n.to_string()), info, is_exported: true, file: 0 }
}

fn iface(fields: Vec<(&str, TypeRef)>, extends: Vec<TypeRef>) -> Interface {
    Interface {
        indexer: None,
        fields: fields.into_iter().map(|(n, t)| (n.to_string(), t)).collect(),
        extends,
        type_params: vec![],
    }
}

fn param(n: &str, t: TypeRef, variadic: bool) -> Param {
    Param { name: n.to_string(), type_info: t, is_variadic: variadic }
}

fn table(types: Vec<Type>) -> TypeTable {
    TypeTable { files: vec![vec!["p".to_string(), "m.d.ts".to_string()]], project_roots: vec![0], types }
}

fn class(sup: Option<TypeRef>, members: Vec<(&str, Member)>) -> TypeInfo {
    TypeInfo::Class(Class {
        super_class: sup,
        members: members.into_iter().map(|(n, m)| (n.to_string(), m)).collect(),
        implements: vec![],
        type_params: vec![],
    })
}

#[test]
fn simple_interface_scenario() {
    let t = table(vec![ty(
        "Point",
        TypeInfo::Interface(iface(vec![("x", b(Builtin::PrimitiveNumber)), ("y", b(Builtin::PrimitiveNumber))], vec![])),
    )]);
    let out = generate(&t).unwrap();
    let expected = "#[cfg(target_arch = \"wasm32\")]\npub mod root {\n\
#[cfg(target_arch = \"wasm32\")]\npub mod p {\n\
#[cfg(target_arch = \"wasm32\")]\npub mod m {\nuse wasm_bindgen::prelude::*;\n\
#[derive(Clone, serde::Serialize, serde::Deserialize)]\npub struct Point {\n\
#[serde(rename = \"x\")]\npub x: f64,\n#[serde(rename = \"y\")]\npub y: f64\n}\n\
trait PointTrait {\n\
fn x(&self) -> std::result::Result<f64, JsValue>;\n\
fn set_x(&mut self, value: f64) -> std::result::Result<(), JsValue>;\n\
fn y(&self) -> std::result::Result<f64, JsValue>;\n\
fn set_y(&mut self, value: f64) -> std::result::Result<(), JsValue>;\n\
}\n}\n}\n}\n";
    assert_eq!(out, expected);
}

#[test]
fn inherited_interface_scenario() {
    let t = table(vec![
        ty("A", TypeInfo::Interface(iface(vec![("a", b(Builtin::PrimitiveNumber))], vec![]))),
        ty("B", TypeInfo::Interface(iface(vec![("b", b(Builtin::PrimitiveString))], vec![local("A")]))),
    ]);
    let out = emit_type(&t, 1);
    assert!(out.contains("pub struct B {\n#[serde(rename = \"b\")]\npub b: String,\n#[serde(rename = \"a\")]\npub a: f64\n}\n"));
    assert!(out.contains("trait BTrait: ATrait {\n"));
    assert!(out.contains("impl ATrait for B {\nfn a(&self) -> std::result::Result<f64, JsValue> {\nstd::result::Result::Ok(self.a.clone())\n}\n"));
    assert!(out.contains("impl BTrait for B {\n"));
    let fields = match &t.types[1].info {
        TypeInfo::Interface(i) => interface_struct(&t, "B", i),
        _ => unreachable!(),
    };
    let names: Vec<String> = fields.fields.iter().map(|f| f.rust_name.clone()).collect();
    assert_eq!(names, vec!["b", "a"]);
    assert!(fields.extra_fields.is_none());
}

#[test]
fn derived_field_wins_over_inherited() {
    let t = table(vec![
        ty("A", TypeInfo::Interface(iface(vec![("a", b(Builtin::PrimitiveNumber))], vec![]))),
        ty("B", TypeInfo::Interface(iface(vec![("a", b(Builtin::PrimitiveString))], vec![local("A")]))),
    ]);
    let d = match &t.types[1].info {
        TypeInfo::Interface(i) => interface_struct(&t, "B", i),
        _ => unreachable!(),
    };
    assert_eq!(d.fields.len(), 1);
    assert_eq!(d.fields[0].typ, "String");
}

#[test]
fn indexer_adds_extra_fields_under_a_free_name() {
    let mut i = iface(vec![("extra_fields", b(Builtin::PrimitiveNumber))], vec![]);
    i.indexer = Some(Indexer { readonly: false, value_type: b(Builtin::PrimitiveString) });
    let t = table(vec![ty("D", TypeInfo::Interface(i))]);
    let d = match &t.types[0].info {
        TypeInfo::Interface(i) => interface_struct(&t, "D", i),
        _ => unreachable!(),
    };
    let x = d.extra_fields.unwrap();
    assert_eq!(x.name, "extra_fields_");
    assert_eq!(x.value_type, "String");
}

#[test]
fn union_with_undefined_scenario() {
    let t = table(vec![ty(
        "U",
        TypeInfo::Union(vec![b(Builtin::PrimitiveNumber), b(Builtin::PrimitiveString), b(Builtin::PrimitiveUndefined)]),
    )]);
    let out = emit_type(&t, 0);
    let expected = "#[derive(Clone, serde::Serialize, serde::Deserialize)]\n#[serde(untagged)]\npub enum U {\n\
F64Case(f64),\nStringCase(String),\n\
#[serde(serialize_with = \"ts_bindgen_rt::serialize_undefined\", deserialize_with = \"ts_bindgen_rt::deserialize_undefined\")]\nCase\n}\n";
    assert_eq!(out, expected);
}

#[test]
fn union_of_undefined_only_has_one_undefined_case() {
    let ms = vec![b(Builtin::PrimitiveUndefined)];
    let t = table(vec![ty("U", TypeInfo::Union(vec![b(Builtin::PrimitiveUndefined)]))]);
    let cs = union_cases(&t, &ms);
    assert_eq!(cs.len(), 1);
    assert!(cs[0].is_undefined);
    assert!(cs[0].payload.is_none());
    let out = emit_type(&t, 0);
    assert!(out.contains("serialize_with = \"ts_bindgen_rt::serialize_undefined\""));
}

#[test]
fn union_cases_widest_first() {
    let n = || b(Builtin::PrimitiveNumber);
    let t = table(vec![
        ty("Small", TypeInfo::Interface(iface(vec![("a", n())], vec![]))),
        ty("Big", TypeInfo::Interface(iface(vec![("a", n()), ("b", n()), ("c", n())], vec![]))),
        ty("Mid", TypeInfo::Interface(iface(vec![("a", n()), ("b", n())], vec![]))),
    ]);
    let ms = vec![b(Builtin::PrimitiveUndefined), local("Small"), local("Big"), b(Builtin::PrimitiveNull), local("Mid")];
    let cs = union_cases(&t, &ms);
    let order: Vec<usize> = cs.iter().map(|c| c.member).collect();
    assert_eq!(order, vec![2, 4, 1, 3, 0]);
    let names: Vec<String> = cs.iter().map(|c| c.name.clone()).collect();
    assert_eq!(names, vec!["BigCase", "MidCase", "SmallCase", "Case", "Case"]);
    assert_eq!(cs[2].payload.as_deref(), Some("Small"));
    assert!(cs[3].payload.is_none());
    assert!(!cs[3].is_undefined);
    assert!(cs[4].is_undefined);
}

#[test]
fn function_with_callback_scenario() {
    let f = Func {
        params: vec![param("cb", func_ref(vec![b(Builtin::PrimitiveNumber), b(Builtin::PrimitiveString)]), false)],
        return_type: b(Builtin::PrimitiveVoid),
        class_name: None,
    };
    let t = table(vec![ty("run", TypeInfo::Func(f))]);
    let f = match &t.types[0].info {
        TypeInfo::Func(f) => f,
        _ => unreachable!(),
    };
    let internal = InternalFunc { func: f, js_name: "run" }.to_text(&t);
    assert_eq!(
        internal,
        "pub fn __tsb_run(cb: &Closure<dyn Fn(f64) -> std::result::Result<String, JsValue>>) -> std::result::Result<(), JsValue>;"
    );
    let wrapper = WrapperFunc { func: f, js_name: "run" }.to_text(&t);
    let expected = "#[allow(dead_code)]\npub fn run(cb: &'static dyn Fn(f64) -> Result<String, JsValue>) -> std::result::Result<(), JsValue> {\n\
#[allow(unused_imports)]\nuse ts_bindgen_rt::IntoSerdeOrDefault;\n\
let __tsb_local_cb = Closure::wrap(Box::new(move |arg0: f64| -> std::result::Result<String, JsValue> {\nlet result = cb(arg0)?;\nOk(result)\n}) as Box<dyn Fn(f64) -> std::result::Result<String, JsValue>>);\n\
Ok(__tsb_run(&__tsb_local_cb)?)\n}\n";
    assert_eq!(wrapper, expected);
    let out = emit_type(&t, 0);
    assert!(out.starts_with("#[wasm_bindgen(module = \"/p/m.js\")]\nextern \"C\" {\n#[wasm_bindgen(js_name = \"run\", catch)]\npub fn __tsb_run("));
}

#[test]
fn variadic_parameter_renders_as_slice() {
    let f = Func {
        params: vec![param("first", b(Builtin::PrimitiveString), false), param("rest", b(Builtin::PrimitiveNumber), true)],
        return_type: b(Builtin::PrimitiveBoolean),
        class_name: None,
    };
    let t = table(vec![ty("log", TypeInfo::Func(f))]);
    let f = match &t.types[0].info {
        TypeInfo::Func(f) => f,
        _ => unreachable!(),
    };
    let internal = InternalFunc { func: f, js_name: "log" }.to_text(&t);
    assert_eq!(internal, "pub fn __tsb_log(first: String, rest: &[f64]) -> std::result::Result<bool, JsValue>;");
    let wrapper = WrapperFunc { func: f, js_name: "log" }.to_text(&t);
    assert!(wrapper.contains("pub fn log(first: String, rest: &[f64]) -> std::result::Result<bool, JsValue>"));
    let out = emit_type(&t, 0);
    assert!(out.contains("#[wasm_bindgen(js_name = \"log\", catch, variadic)]"));
}

#[test]
fn json_bridged_argument_is_converted_for_the_internal_function() {
    let f = Func {
        params: vec![param("opts", local("Opts"), false)],
        return_type: local("Opts"),
        class_name: None,
    };
    let t = table(vec![ty("Opts", TypeInfo::Interface(iface(vec![], vec![]))), ty("make", TypeInfo::Func(f))]);
    let f = match &t.types[1].info {
        TypeInfo::Func(f) => f,
        _ => unreachable!(),
    };
    let internal = InternalFunc { func: f, js_name: "make" }.to_text(&t);
    assert_eq!(internal, "pub fn __tsb_make(opts: JsValue) -> std::result::Result<JsValue, JsValue>;");
    let wrapper = WrapperFunc { func: f, js_name: "make" }.to_text(&t);
    assert!(wrapper.contains("pub fn make(opts: Opts) -> std::result::Result<Opts, JsValue>"));
    assert!(wrapper.contains("Ok(ts_bindgen_rt::IntoSerdeOrDefault::into_serde_or_default(&__tsb_make(ts_bindgen_rt::from_serde_or_undefined(opts))?).unwrap())"));
}

#[test]
fn class_with_inheritance_scenario() {
    let hello = Func { params: vec![], return_type: b(Builtin::PrimitiveString), class_name: Some(TypeIdent::LocalName("Base".to_string())) };
    let greet = Func { params: vec![], return_type: b(Builtin::PrimitiveString), class_name: Some(TypeIdent::LocalName("Child".to_string())) };
    let t = table(vec![
        ty("Base", class(None, vec![("hello", Member::Method(hello))])),
        ty("Child", class(Some(local("Base")), vec![("greet", Member::Method(greet))])),
    ]);
    let out = emit_type(&t, 1);
    assert!(out.contains("#[wasm_bindgen(js_name = \"Child\", extends = Base)]\npub type Child;\n"));
    assert!(out.contains("#[wasm_bindgen(js_name = \"greet\", method, js_class = \"Child\", catch)]\npub fn __tsb_greet(this: &Child) -> std::result::Result<String, JsValue>;\n"));
    assert!(out.contains("pub fn greet(&self) -> std::result::Result<String, JsValue> {\n"));
    assert!(out.contains("Ok(self.__tsb_greet()?)"));
    assert!(out.contains("trait ChildTrait: BaseTrait {\n"));
    assert!(out.contains("impl BaseTrait for Child {\nfn hello(&self) -> std::result::Result<String, JsValue> {\nlet target: &Base = self.as_ref();\nBase::hello(target)\n}\n}\n"));
    assert!(out.contains("impl Clone for Child {"));
}

#[test]
fn namespace_import_scenario() {
    let t = TypeTable {
        files: vec![
            vec!["p".to_string(), "a.d.ts".to_string()],
            vec!["p".to_string(), "b.d.ts".to_string()],
        ],
        project_roots: vec![0, 0],
        types: vec![Type {
            name: TypeIdent::LocalName("util".to_string()),
            info: TypeInfo::NamespaceImport(NamespaceImport::All { src: 1 }),
            is_exported: true,
            file: 0,
        }],
    };
    assert_eq!(emit_type(&t, 0), "pub use super::super::p::b as util;\n");
}

#[test]
fn callable_field_gets_serde_adapters() {
    let t = table(vec![ty(
        "Handler",
        TypeInfo::Interface(iface(vec![("onClick", func_ref(vec![b(Builtin::PrimitiveNumber), b(Builtin::PrimitiveVoid)]))], vec![])),
    )]);
    let d = match &t.types[0].info {
        TypeInfo::Interface(i) => interface_struct(&t, "Handler", i),
        _ => unreachable!(),
    };
    assert_eq!(d.fields[0].serializer.as_deref(), Some("__tsb__serialize_on_click"));
    assert_eq!(d.fields[0].deserializer.as_deref(), Some("__tsb__deserialize_on_click"));
    let out = emit_type(&t, 0);
    assert!(out.contains("serialize_with = \"Handler::__tsb__serialize_on_click\""));
    assert!(out.contains("impl Handler {\n#[allow(non_snake_case)]\nfn __tsb__serialize_on_click<S>("));
    assert!(out.contains("fn __tsb__deserialize_on_click<'de, D>("));
}

#[test]
fn top_level_reference_is_refused() {
    let t = table(vec![ty("R", TypeInfo::Ref(local("X")))]);
    assert_eq!(generate(&t), Err(EmitError::RefAtTopLevel));
}

#[test]
fn empty_intersection_is_refused() {
    let t = table(vec![ty("I", TypeInfo::Intersection(vec![]))]);
    assert_eq!(generate(&t), Err(EmitError::EmptyIntersection));
}

#[test]
fn intersection_with_a_non_interface_member_emits_the_first_member() {
    let t = table(vec![
        ty("A", TypeInfo::Interface(iface(vec![("a", b(Builtin::PrimitiveNumber))], vec![]))),
        ty("N", TypeInfo::Enum(vec![ts_bindgen::ir::EnumMember { id: "one".to_string(), value: None }])),
        ty("X", TypeInfo::Intersection(vec![local("N"), local("A")])),
        ty("Y", TypeInfo::Intersection(vec![local("A"), local("N")])),
    ]);
    assert_eq!(
        emit_type(&t, 2),
        "#[wasm_bindgen]\n#[derive(Clone, serde::Serialize, serde::Deserialize)]\n#[serde(untagged)]\npub enum X {\nOne\n}\n"
    );
    assert!(emit_type(&t, 3).contains("pub struct Y {\n#[serde(rename = \"a\")]\npub a: f64\n}\n"));
}

fn generic_iface(name: &str, params: Vec<(&str, Option<TypeRef>)>, fields: Vec<(&str, TypeRef)>, extends: Vec<TypeRef>) -> Type {
    let mut i = iface(fields, extends);
    i.type_params = params
        .into_iter()
        .map(|(n, d)| TypeParamConfig { name: n.to_string(), default_type_arg: d })
        .collect();
    ty(name, TypeInfo::Interface(i))
}

fn applied(n: &str, args: Vec<TypeRef>) -> TypeRef {
    TypeRef { referent: TypeIdent::LocalName(n.to_string()), type_params: args, file: 0 }
}

#[test]
fn inherited_fields_take_the_extends_arguments() {
    let t = table(vec![
        generic_iface("J", vec![("P", None)], vec![("v", local("P"))], vec![]),
        generic_iface("B", vec![], vec![("own", b(Builtin::PrimitiveBoolean))], vec![applied("J", vec![b(Builtin::PrimitiveString)])]),
    ]);
    let out = emit_type(&t, 1);
    assert!(out.contains("pub struct B {\n#[serde(rename = \"own\")]\npub own: bool,\n#[serde(rename = \"v\")]\npub v: String\n}\n"));
    assert!(out.contains("trait BTrait: JTrait<String> {\n"));
    assert!(out.contains("impl JTrait<String> for B {\nfn v(&self) -> std::result::Result<String, JsValue> {\nstd::result::Result::Ok(self.v.clone())\n}\n"));
    assert!(out.contains("fn set_v(&mut self, value: String) -> std::result::Result<(), JsValue> {"));
}

#[test]
fn missing_arguments_take_their_defaults() {
    let t = table(vec![
        generic_iface("J", vec![("P", Some(b(Builtin::PrimitiveNumber)))], vec![("v", applied("Array", vec![]))], vec![]),
        generic_iface("K", vec![("P", Some(b(Builtin::PrimitiveNumber)))], vec![("w", local("P"))], vec![]),
        generic_iface("B", vec![], vec![], vec![applied("K", vec![])]),
    ]);
    let out = emit_type(&t, 2);
    assert!(out.contains("pub w: f64"));
}

#[test]
fn arguments_pass_through_a_generic_chain() {
    let t = table(vec![
        generic_iface("J", vec![("P", None)], vec![("v", applied("Array", vec![local("P")]))], vec![]),
        generic_iface("M", vec![("Q", None)], vec![("q", local("Q"))], vec![applied("J", vec![local("Q")])]),
        generic_iface("B", vec![], vec![], vec![applied("M", vec![b(Builtin::PrimitiveNumber)])]),
        generic_iface("G", vec![("T", None)], vec![], vec![applied("M", vec![local("T")])]),
    ]);
    let out = emit_type(&t, 2);
    assert!(out.contains("pub q: f64"));
    assert!(out.contains("pub v: Array<f64>"));
    let out = emit_type(&t, 3);
    assert!(out.contains("pub struct G<T> {"));
    assert!(out.contains("#[serde(rename = \"q\", bound(deserialize = \"T: Clone + serde::Serialize + serde::Deserialize<'de>\"))]\npub q: T"));
}

#[test]
fn callable_parameter_of_a_callable_type_is_owned() {
    let t = table(vec![]);
    let inner = func_ref(vec![b(Builtin::PrimitiveNumber), b(Builtin::PrimitiveVoid)]);
    let outer = func_ref(vec![inner, b(Builtin::PrimitiveVoid)]);
    assert_eq!(
        exposed_to_rust_param_type(&t, &outer),
        "&'static dyn Fn(dyn Fn(f64) -> Result<(), JsValue>) -> Result<(), JsValue>"
    );
}

#[test]
fn intersection_of_interfaces_merges_fields() {
    let n = || b(Builtin::PrimitiveNumber);
    let t = table(vec![
        ty("A", TypeInfo::Interface(iface(vec![("a", n()), ("s", n())], vec![]))),
        ty("B", TypeInfo::Interface(iface(vec![("b", n()), ("s", b(Builtin::PrimitiveString))], vec![]))),
        ty("AB", TypeInfo::Intersection(vec![local("A"), local("B")])),
    ]);
    let out = emit_type(&t, 2);
    assert!(out.contains("pub struct Ab {\n#[serde(rename = \"b\")]\npub b: f64,\n#[serde(rename = \"s\")]\npub s: String,\n#[serde(rename = \"a\")]\npub a: f64\n}\n"));
    assert!(out.contains("trait AbTrait {\n"));
}

#[test]
fn enum_alias_and_tuple() {
    let t = table(vec![
        ty("Color", TypeInfo::Enum(vec![
            ts_bindgen::ir::EnumMember { id: "red".to_string(), value: Some("1".to_string()) },
            ts_bindgen::ir::EnumMember { id: "green".to_string(), value: None },
        ])),
        ty("Name", TypeInfo::Alias(b(Builtin::PrimitiveString))),
        ty("Pair", TypeInfo::Tuple(vec![b(Builtin::PrimitiveNumber), b(Builtin::PrimitiveBoolean)])),
    ]);
    assert_eq!(
        emit_type(&t, 0),
        "#[wasm_bindgen]\n#[derive(Clone, serde::Serialize, serde::Deserialize)]\n#[serde(untagged)]\npub enum Color {\nRed = 1,\nGreen\n}\n"
    );
    assert_eq!(emit_type(&t, 1), "#[allow(dead_code)]\npub type Name = String;\n");
    assert_eq!(
        emit_type(&t, 2),
        "#[derive(Clone, serde::Serialize, serde::Deserialize)]\npub struct Pair(pub f64, pub bool);\n"
    );
}

#[test]
fn generic_and_container_types_render() {
    let arr = TypeRef { referent: TypeIdent::Builtin(Builtin::Array), type_params: vec![b(Builtin::PrimitiveNumber)], file: 0 };
    let t = table(vec![ty("Nums", TypeInfo::Alias(arr))]);
    assert_eq!(emit_type(&t, 0), "#[allow(dead_code)]\npub type Nums = Vec<f64>;\n");
}

#[test]
fn generic_interface_renders_its_type_parameters() {
    let mut boxed = iface(vec![("value", local("T"))], vec![]);
    boxed.type_params = vec![TypeParamConfig { name: "T".to_string(), default_type_arg: None }];
    let mut wrapped = iface(vec![("extra", b(Builtin::PrimitiveNumber))], vec![TypeRef {
        referent: TypeIdent::LocalName("Box".to_string()),
        type_params: vec![local("T")],
        file: 0,
    }]);
    wrapped.type_params = vec![TypeParamConfig { name: "T".to_string(), default_type_arg: None }];
    let t = table(vec![ty("Box", TypeInfo::Interface(boxed)), ty("Wrapped", TypeInfo::Interface(wrapped))]);
    let out = emit_type(&t, 0);
    assert!(out.contains("pub struct Box<T> {\n#[serde(rename = \"value\", bound(deserialize = \"T: Clone + serde::Serialize + serde::Deserialize<'de>\"))]\npub value: T\n}\n"));
    assert!(out.contains("trait BoxTrait<T> {\nfn value(&self) -> std::result::Result<T, JsValue>;\n"));
    let out = emit_type(&t, 1);
    assert!(out.contains("pub struct Wrapped<T> {"));
    assert!(out.contains("trait WrappedTrait<T>: BoxTrait<T> {\n"));
    assert!(out.contains("impl<T: std::clone::Clone> BoxTrait<T> for Wrapped<T> {\n"));
    assert!(out.contains("impl<T: std::clone::Clone> WrappedTrait<T> for Wrapped<T> {\n"));
}

#[test]
fn projections_of_one_type() {
    let t = table(vec![ty("Opts", TypeInfo::Interface(iface(vec![], vec![])))]);
    let cb = func_ref(vec![b(Builtin::PrimitiveString), b(Builtin::PrimitiveBoolean)]);
    assert_eq!(exposed_to_js_param_type(&t, &local("Opts")), "JsValue");
    assert_eq!(exposed_to_js_return_type(&t, &local("Opts")), "std::result::Result<JsValue, JsValue>");
    assert_eq!(exposed_to_rust_param_type(&t, &local("Opts")), "Opts");
    assert_eq!(exposed_to_rust_return_type(&t, &local("Opts")), "Opts");
    assert_eq!(
        exposed_to_js_param_type(&t, &cb),
        "&Closure<dyn Fn(String) -> std::result::Result<bool, JsValue>>"
    );
    assert_eq!(exposed_to_rust_param_type(&t, &cb), "&'static dyn Fn(String) -> Result<bool, JsValue>");
    assert_eq!(exposed_to_rust_return_type(&t, &cb), "std::rc::Rc<dyn Fn(String) -> Result<bool, JsValue>>");
    assert_eq!(exposed_to_js_param_type(&t, &b(Builtin::PrimitiveVoid)), "()");
}

#[test]
fn raw_return_conversions() {
    let t = table(vec![ty("Opts", TypeInfo::Interface(iface(vec![], vec![])))]);
    assert_eq!(render_raw_return_to_js(&t, &b(Builtin::PrimitiveNumber), "ret"), "ret.into_serde().unwrap()");
    assert_eq!(
        render_raw_return_to_js(&t, &local("Opts"), "ret"),
        "ts_bindgen_rt::IntoSerdeOrDefault::into_serde_or_default(&ret).unwrap()"
    );
}
