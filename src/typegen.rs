//! The emitted text of each named type.
use crate::funcs::{FnProto, InternalFunc, WrapperFunc, depth, internal_name, js_fn_decl, wrapper_text};
use crate::ident::{camel_of, chars_of, join, join_strings, sanitize, snake_of, string_of, strings_view, to_camel_case_ident, to_snake_case_ident};
use crate::ir::{Builtin, EnumMember, Func, NamespaceImport, TypeIdent, TypeInfo, TypeRef, TypeTable};
use crate::modpath::{idents_view, path_segments, name_segments};
use crate::project::{Position, builtin_name, push_chars, push_str, push_text, spec_text};
use vstd::prelude::*;

verus! {

/// Why a type cannot be emitted.
#[derive(Clone, Copy, PartialEq, Eq, Structural, Debug)]
pub enum EmitError {
    /// A bare reference stands where a named type should.
    RefAtTopLevel,
    /// An intersection without members.
    EmptyIntersection,
}

/// The JS name of a type name: its last segment, or the builtin's target.
pub open spec fn js_name_of(n: TypeIdent) -> Seq<char> {
    match n {
        TypeIdent::Builtin(b) => builtin_name(b),
        TypeIdent::LocalName(s) => s@,
        TypeIdent::QualifiedName(v) => if v@.len() == 0 {
            Seq::empty()
        } else {
            v@.last()@
        },
        TypeIdent::GeneratedName(s) => s@,
    }
}

pub fn js_name_string(n: &TypeIdent) -> (r: String)
    ensures
        r@ == js_name_of(*n),
{
    match n {
        TypeIdent::Builtin(b) => {
            let mut t: Vec<char> = Vec::new();
            crate::project::push_name_text(&mut t, n);
            string_of(&t)
        },
        TypeIdent::LocalName(s) => s.clone(),
        TypeIdent::QualifiedName(v) => {
            if v.len() == 0 {
                string_of(&Vec::new())
            } else {
                v[v.len() - 1].clone()
            }
        },
        TypeIdent::GeneratedName(s) => s.clone(),
    }
}

/// The part of a file name before its first dot.
pub open spec fn trim_after_dot(s: Seq<char>) -> Seq<char>
    decreases s.len(),
{
    if s.len() == 0 {
        s
    } else if s[0] == '.' {
        Seq::empty()
    } else {
        seq![s[0]] + trim_after_dot(s.drop_first())
    }
}

fn trim_after_dot_chars(s: &Vec<char>) -> (r: Vec<char>)
    ensures
        r@ == trim_after_dot(s@),
{
    let mut i: usize = 0;
    while i < s.len() && s[i] != '.'
        invariant
            i <= s@.len(),
            forall|j: int| 0 <= j < i ==> s@[j] != '.',
        decreases s@.len() - i,
    {
        i += 1;
    }
    let mut r: Vec<char> = Vec::new();
    let mut k: usize = 0;
    while k < i
        invariant
            k <= i <= s@.len(),
            r@ == s@.subrange(0, k as int),
        decreases i - k,
    {
        r.push(s[k]);
        k += 1;
    }
    proof {
        lemma_trim_after_dot(s@, i as int);
    }
    r
}

proof fn lemma_trim_after_dot(s: Seq<char>, i: int)
    requires
        0 <= i <= s.len(),
        forall|j: int| 0 <= j < i ==> s[j] != '.',
        i == s.len() || s[i] == '.',
    ensures
        trim_after_dot(s) == s.subrange(0, i),
    decreases s.len(),
{
    if s.len() > 0 && i > 0 {
        lemma_trim_after_dot(s.drop_first(), i - 1);
        assert(seq![s[0]] + s.drop_first().subrange(0, i - 1) =~= s.subrange(0, i));
    } else if s.len() > 0 {
        assert(s.subrange(0, 0) =~= Seq::<char>::empty());
    }
}

/// The JS module of a file: its path below the project, with the file
/// name cut at its first dot and `.js` after it; the absolute path where no
/// project holds the file.
pub open spec fn js_module_path(comps: Seq<Seq<char>>, root: int) -> Seq<char> {
    let below = comps.subrange(root, comps.len() as int);
    let parts = below.drop_last().push(trim_after_dot(comps.last()) + ".js"@);
    (if root == 0 {
        "/"@
    } else {
        Seq::empty()
    }) + join(parts, "/"@)
}

/// The length of the longest prefix of a path whose directory holds a
/// project manifest; `marks[k]` tells whether the prefix of length `k + 1`
/// does. 0 where none does.
pub open spec fn deepest_mark(marks: Seq<bool>) -> nat
    decreases marks.len(),
{
    if marks.len() == 0 {
        0
    } else if marks.last() {
        marks.len()
    } else {
        deepest_mark(marks.drop_last())
    }
}

/// The number of leading path components that lead to the project holding
/// a file, from which prefixes hold a project manifest.
pub fn project_root_len(marks: &Vec<bool>) -> (r: usize)
    ensures
        r as nat == deepest_mark(marks@),
{
    let mut i: usize = marks.len();
    assert(marks@.subrange(0, i as int) =~= marks@);
    while i > 0
        invariant
            i <= marks@.len(),
            deepest_mark(marks@) == deepest_mark(marks@.subrange(0, i as int)),
        decreases i,
    {
        let ghost sub = marks@.subrange(0, i as int);
        assert(sub.drop_last() =~= marks@.subrange(0, i - 1));
        if marks[i - 1] {
            return i;
        }
        i -= 1;
    }
    0
}

/// The JS module that a file's declarations come from.
pub fn module_path_of(comps: &Vec<String>, root: usize) -> (r: String)
    requires
        root < comps@.len(),
    ensures
        r@ == js_module_path(strings_view(comps@), root as int),
{
    let mut parts: Vec<String> = Vec::new();
    let mut i: usize = root;
    let last = comps.len() - 1;
    while i < last
        invariant
            root <= i <= last,
            last + 1 == comps@.len(),
            strings_view(parts@) == strings_view(comps@).subrange(root as int, i as int),
        decreases last - i,
    {
        let ghost before = strings_view(parts@);
        parts.push(comps[i].clone());
        assert(strings_view(parts@) =~= before.push(comps@[i as int]@));
        assert(strings_view(parts@) =~= strings_view(comps@).subrange(root as int, i + 1));
        i += 1;
    }
    let lc = chars_of(comps[last].as_str());
    let mut file = trim_after_dot_chars(&lc);
    push_str(&mut file, ".js");
    let ghost before = strings_view(parts@);
    parts.push(string_of(&file));
    let ghost sv = strings_view(comps@);
    assert(strings_view(parts@) =~= sv.subrange(root as int, sv.len() as int).drop_last().push(trim_after_dot(sv.last()) + ".js"@));
    let joined = join_strings(&parts, "/");
    let mut t: Vec<char> = Vec::new();
    if root == 0 {
        push_str(&mut t, "/");
    }
    push_str(&mut t, joined.as_str());
    let r = string_of(&t);
    proof {
        reveal_strlit("");
    }
    assert(r@ =~= js_module_path(strings_view(comps@), root as int));
    r
}


pub open spec fn vis_text(is_exported: bool) -> Seq<char> {
    if is_exported {
        "pub "@
    } else {
        Seq::empty()
    }
}

fn push_vis(out: &mut Vec<char>, is_exported: bool)
    ensures
        final(out)@ == old(out)@ + vis_text(is_exported),
{
    if is_exported {
        push_str(out, "pub ");
    } else {
        assert(out@ =~= old(out)@ + vis_text(is_exported));
    }
}

/// The target name of a named type.
pub open spec fn type_name_text(n: TypeIdent) -> Seq<char> {
    sanitize(camel_of(js_name_of(n)))
}

fn camel_string(s: &str) -> (r: String)
    ensures
        r@ == sanitize(camel_of(s@)),
{
    let r = to_camel_case_ident(s).render();
    assert(r@ =~= sanitize(camel_of(s@)));
    r
}

fn snake_string(s: &str) -> (r: String)
    ensures
        r@ == sanitize(snake_of(s@)),
{
    let r = to_snake_case_ident(s).render();
    assert(r@ =~= sanitize(snake_of(s@)));
    r
}

pub open spec fn enum_member_text(m: EnumMember) -> Seq<char> {
    sanitize(camel_of(m.id@)) + match m.value {
        Some(v) => " = "@ + v@,
        None => Seq::empty(),
    }
}

/// The text of an enum.
pub open spec fn enum_text(name: Seq<char>, ms: Seq<EnumMember>) -> Seq<char> {
    "#[wasm_bindgen]\n#[derive(Clone, serde::Serialize, serde::Deserialize)]\n#[serde(untagged)]\npub enum "@ + name
        + " {\n"@ + join(ms.map_values(|m: EnumMember| enum_member_text(m)), ",\n"@) + "\n}\n"@
}

pub fn render_enum(name: &str, ms: &Vec<EnumMember>) -> (r: String)
    ensures
        r@ == enum_text(name@, ms@),
{
    let mut parts: Vec<String> = Vec::new();
    let mut i: usize = 0;
    while i < ms.len()
        invariant
            i <= ms@.len(),
            strings_view(parts@) == ms@.subrange(0, i as int).map_values(|m: EnumMember| enum_member_text(m)),
        decreases ms@.len() - i,
    {
        let mut t: Vec<char> = Vec::new();
        let id = camel_string(ms[i].id.as_str());
        push_str(&mut t, id.as_str());
        match &ms[i].value {
            Some(v) => {
                push_str(&mut t, " = ");
                push_str(&mut t, v.as_str());
            },
            None => {},
        }
        assert(t@ =~= enum_member_text(ms@[i as int]));
        let ghost before = strings_view(parts@);
        parts.push(string_of(&t));
        assert(strings_view(parts@) =~= before.push(enum_member_text(ms@[i as int])));
        assert(ms@.subrange(0, i + 1).map_values(|m: EnumMember| enum_member_text(m)) =~= ms@.subrange(0, i as int).map_values(|m: EnumMember| enum_member_text(m)).push(enum_member_text(ms@[i as int])));
        i += 1;
    }
    assert(ms@.subrange(0, i as int) =~= ms@);
    let body = join_strings(&parts, ",\n");
    let mut t: Vec<char> = Vec::new();
    push_str(&mut t, "#[wasm_bindgen]\n#[derive(Clone, serde::Serialize, serde::Deserialize)]\n#[serde(untagged)]\npub enum ");
    push_str(&mut t, name);
    push_str(&mut t, " {\n");
    push_str(&mut t, body.as_str());
    push_str(&mut t, "\n}\n");
    let r = string_of(&t);
    assert(r@ =~= enum_text(name@, ms@));
    r
}

/// The text of a type alias.
pub open spec fn alias_text(table: &TypeTable, vis: Seq<char>, name: Seq<char>, target: TypeRef) -> Seq<char> {
    "#[allow(dead_code)]\n"@ + vis + "type "@ + name + " = "@ + spec_text(table, target, Position::Plain, depth()) + ";\n"@
}

pub fn render_alias(table: &TypeTable, is_exported: bool, name: &str, target: &TypeRef) -> (r: String)
    ensures
        r@ == alias_text(table, vis_text(is_exported), name@, *target),
{
    let mut t: Vec<char> = Vec::new();
    push_str(&mut t, "#[allow(dead_code)]\n");
    push_vis(&mut t, is_exported);
    push_str(&mut t, "type ");
    push_str(&mut t, name);
    push_str(&mut t, " = ");
    push_text(&mut t, table, target, Position::Plain, usize::MAX);
    push_str(&mut t, ";\n");
    let r = string_of(&t);
    assert(r@ =~= alias_text(table, vis_text(is_exported), name@, *target));
    r
}

/// The text of a tuple struct.
pub open spec fn tuple_text(table: &TypeTable, name: Seq<char>, ms: Seq<TypeRef>) -> Seq<char> {
    "#[derive(Clone, serde::Serialize, serde::Deserialize)]\npub struct "@ + name + "("@ + join(
        ms.map_values(|t: TypeRef| "pub "@ + spec_text(table, t, Position::Plain, depth())),
        ", "@,
    ) + ");\n"@
}

pub fn render_tuple(table: &TypeTable, name: &str, ms: &Vec<TypeRef>) -> (r: String)
    ensures
        r@ == tuple_text(table, name@, ms@),
{
    let mut parts: Vec<String> = Vec::new();
    let mut i: usize = 0;
    while i < ms.len()
        invariant
            i <= ms@.len(),
            strings_view(parts@) == ms@.subrange(0, i as int).map_values(|t: TypeRef| "pub "@ + spec_text(table, t, Position::Plain, depth())),
        decreases ms@.len() - i,
    {
        let mut t: Vec<char> = Vec::new();
        push_str(&mut t, "pub ");
        push_text(&mut t, table, &ms[i], Position::Plain, usize::MAX);
        let ghost before = strings_view(parts@);
        parts.push(string_of(&t));
        assert(strings_view(parts@) =~= before.push("pub "@ + spec_text(table, ms@[i as int], Position::Plain, depth())));
        assert(ms@.subrange(0, i + 1).map_values(|t: TypeRef| "pub "@ + spec_text(table, t, Position::Plain, depth())) =~= ms@.subrange(0, i as int).map_values(|t: TypeRef| "pub "@ + spec_text(table, t, Position::Plain, depth())).push("pub "@ + spec_text(table, ms@[i as int], Position::Plain, depth())));
        i += 1;
    }
    assert(ms@.subrange(0, i as int) =~= ms@);
    let body = join_strings(&parts, ", ");
    let mut t: Vec<char> = Vec::new();
    push_str(&mut t, "#[derive(Clone, serde::Serialize, serde::Deserialize)]\npub struct ");
    push_str(&mut t, name);
    push_str(&mut t, "(");
    push_str(&mut t, body.as_str());
    push_str(&mut t, ");\n");
    let r = string_of(&t);
    assert(r@ =~= tuple_text(table, name@, ms@));
    r
}

/// Some parameter of the function is variadic.
pub open spec fn spec_is_variadic(f: Func) -> bool {
    exists|i: int| 0 <= i < f.params@.len() && f.params@[i].is_variadic
}

pub fn is_variadic(f: &Func) -> (r: bool)
    ensures
        r == spec_is_variadic(*f),
{
    let mut i: usize = 0;
    while i < f.params.len()
        invariant
            i <= f.params@.len(),
            forall|j: int| 0 <= j < i ==> !f.params@[j].is_variadic,
        decreases f.params@.len() - i,
    {
        if f.params[i].is_variadic {
            return true;
        }
        i += 1;
    }
    false
}

/// The text of a declared function: the extern block of its internal
/// declaration in the JS module `path`, then its wrapper.
pub open spec fn func_text(table: &TypeTable, path: Seq<char>, js: Seq<char>, f: Func) -> Seq<char> {
    "#[wasm_bindgen(module = \""@ + crate::emit::escape(path) + "\")]\nextern \"C\" {\n#[wasm_bindgen(js_name = \""@
        + crate::emit::escape(js) + "\", catch"@ + (if spec_is_variadic(f) {
        ", variadic"@
    } else {
        Seq::empty()
    }) + ")]\n"@ + ("pub "@ + js_fn_decl(table, FnProto::Func(&f), internal_name(js)) + ";"@) + "\n}\n"@ + wrapper_text(
        table,
        FnProto::Func(&f),
        sanitize(snake_of(js)),
        internal_name(js),
    )
}

pub fn render_func(table: &TypeTable, path: &String, js: &String, f: &Func) -> (r: String)
    ensures
        r@ == func_text(table, path@, js@, *f),
{
    let mut t: Vec<char> = Vec::new();
    push_str(&mut t, "#[wasm_bindgen(module = \"");
    crate::emit::push_escaped(&mut t, path);
    push_str(&mut t, "\")]\nextern \"C\" {\n#[wasm_bindgen(js_name = \"");
    crate::emit::push_escaped(&mut t, js);
    push_str(&mut t, "\", catch");
    let ghost head = t@;
    if is_variadic(f) {
        push_str(&mut t, ", variadic");
    } else {
        proof {
            reveal_strlit("");
        }
        assert(t@ =~= head + Seq::<char>::empty());
    }
    assert(t@ == head + (if spec_is_variadic(*f) { ", variadic"@ } else { Seq::<char>::empty() }));
    push_str(&mut t, ")]\n");
    let internal = InternalFunc { func: f, js_name: js.as_str() };
    let decl = internal.to_text(table);
    assert(decl@ == "pub "@ + js_fn_decl(table, FnProto::Func(f), internal_name(js@)) + ";"@);
    push_str(&mut t, decl.as_str());
    push_str(&mut t, "\n}\n");
    let wrapper = WrapperFunc { func: f, js_name: js.as_str() };
    let w = wrapper.to_text(table);
    push_str(&mut t, w.as_str());
    let r = string_of(&t);
    proof {
        reveal_strlit("");
    }
    assert(r@ =~= func_text(table, path@, js@, *f));
    r
}


/// The custom serializer of a struct field of type `t`, if it has one.
pub open spec fn field_serializer(table: &TypeTable, f: crate::iface::StructField, t: TypeRef) -> Seq<char> {
    match (f.serializer, crate::project::spec_fn_ref(table, t, usize::MAX as nat)) {
        (Some(n), Some(g)) => crate::funcs::serializer_text(table, n@, f.rust_name@, f.typ@, g),
        _ => Seq::empty(),
    }
}

/// The custom deserializer of a struct field of type `t`, if it has one.
pub open spec fn field_deserializer(table: &TypeTable, f: crate::iface::StructField, t: TypeRef) -> Seq<char> {
    match (f.deserializer, crate::project::spec_fn_ref(table, t, usize::MAX as nat)) {
        (Some(n), Some(g)) => crate::funcs::deserializer_text(table, n@, f.rust_name@, f.typ@, g),
        _ => Seq::empty(),
    }
}

/// The serde adapters of a struct whose fields have the types `ts`: every
/// serializer, then every deserializer, in an inherent impl; nothing when
/// no field needs one.
pub open spec fn adapters_text(table: &TypeTable, d: crate::iface::StructDef, ts: Seq<TypeRef>) -> Seq<char> {
    let n = d.fields@.len();
    let sers = Seq::new(n, |i: int| field_serializer(table, d.fields@[i], ts[i]));
    let des = Seq::new(n, |i: int| field_deserializer(table, d.fields@[i], ts[i]));
    let body = join(sers, Seq::empty()) + join(des, Seq::empty());
    if body.len() == 0 {
        Seq::empty()
    } else {
        "impl "@ + d.name@ + " {\n"@ + body + "}\n"@
    }
}

fn adapter_pair(table: &TypeTable, f: &crate::iface::StructField, t: &TypeRef) -> (r: (Vec<char>, Vec<char>))
    ensures
        r.0@ == field_serializer(table, *f, *t),
        r.1@ == field_deserializer(table, *f, *t),
{
    let mut x: Vec<char> = Vec::new();
    let mut y: Vec<char> = Vec::new();
    let g = crate::project::fn_ref_of_public(table, t);
    match (&f.serializer, g) {
        (Some(nm), Some(g)) => crate::funcs::push_serializer(&mut x, table, nm.as_str(), f.rust_name.as_str(), f.typ.as_str(), g),
        _ => {},
    }
    match (&f.deserializer, g) {
        (Some(nm), Some(g)) => crate::funcs::push_deserializer(&mut y, table, nm.as_str(), f.rust_name.as_str(), f.typ.as_str(), g),
        _ => {},
    }
    assert(x@ =~= field_serializer(table, *f, *t));
    assert(y@ =~= field_deserializer(table, *f, *t));
    (x, y)
}

fn push_adapters(out: &mut Vec<char>, table: &TypeTable, d: &crate::iface::StructDef, ts: &Vec<&TypeRef>)
    requires
        ts@.len() == d.fields@.len(),
    ensures
        final(out)@ == old(out)@ + adapters_text(table, *d, ts@.map_values(|t: &TypeRef| *t)),
{
    let ghost tv = ts@.map_values(|t: &TypeRef| *t);
    let n = d.fields.len();
    let ghost sers = Seq::new(n as nat, |i: int| field_serializer(table, d.fields@[i], tv[i]));
    let ghost des = Seq::new(n as nat, |i: int| field_deserializer(table, d.fields@[i], tv[i]));
    let mut a: Vec<String> = Vec::new();
    let mut b: Vec<String> = Vec::new();
    let mut i: usize = 0;
    while i < n
        invariant
            n == d.fields@.len(),
            ts@.len() == n,
            tv == ts@.map_values(|t: &TypeRef| *t),
            sers == Seq::new(n as nat, |i: int| field_serializer(table, d.fields@[i], tv[i])),
            des == Seq::new(n as nat, |i: int| field_deserializer(table, d.fields@[i], tv[i])),
            i <= n,
            strings_view(a@) == sers.subrange(0, i as int),
            strings_view(b@) == des.subrange(0, i as int),
        decreases n - i,
    {
        let (x, y) = adapter_pair(table, &d.fields[i], ts[i]);
        assert(x@ =~= sers[i as int]);
        assert(y@ =~= des[i as int]);
        let ghost ba = strings_view(a@);
        let ghost bb = strings_view(b@);
        a.push(string_of(&x));
        b.push(string_of(&y));
        assert(strings_view(a@) =~= ba.push(sers[i as int]));
        assert(strings_view(b@) =~= bb.push(des[i as int]));
        assert(sers.subrange(0, i + 1) =~= sers.subrange(0, i as int).push(sers[i as int]));
        assert(des.subrange(0, i + 1) =~= des.subrange(0, i as int).push(des[i as int]));
        i += 1;
    }
    assert(sers.subrange(0, i as int) =~= sers);
    assert(des.subrange(0, i as int) =~= des);
    proof {
        reveal_strlit("");
    }
    let sa = join_strings(&a, "");
    let sb = join_strings(&b, "");
    let ghost start = out@;
    assert(""@ =~= Seq::<char>::empty());
    assert(sa@ == join(sers, Seq::empty()));
    assert(sb@ == join(des, Seq::empty()));
    if sa.as_str().unicode_len() > 0 || sb.as_str().unicode_len() > 0 {
        push_str(out, "impl ");
        push_str(out, d.name.as_str());
        push_str(out, " {\n");
        push_str(out, sa.as_str());
        push_str(out, sb.as_str());
        push_str(out, "}\n");
    }
    assert(out@ =~= start + adapters_text(table, *d, tv));
}


/// The types of the recursive fields of an interface.
pub open spec fn field_types(table: &TypeTable, iface: crate::ir::Interface) -> Seq<TypeRef> {
    crate::iface::spec_recursive_fields(table, iface, Seq::empty(), crate::resolve::table_fuel(table)).map_values(
        |f: crate::iface::FieldV| f.1,
    )
}

/// The reference by which an entity named `js` in `file`, with the type
/// parameters `names`, names itself.
pub open spec fn is_self_ref(r: TypeRef, js: Seq<char>, names: Seq<Seq<char>>, file: usize) -> bool {
    &&& r.referent@ == crate::ir::IdentView::Local(js)
    &&& r.type_params@.len() == names.len()
    &&& forall|i: int|
        0 <= i < names.len() ==> {
            &&& (#[trigger] r.type_params@[i]).referent@ == crate::ir::IdentView::Local(names[i])
            &&& r.type_params@[i].type_params@.len() == 0
            &&& r.type_params@[i].file == file
        }
    &&& r.file == file
}

fn self_ref(js: &String, params: &Vec<String>, file: usize) -> (r: TypeRef)
    ensures
        is_self_ref(r, js@, strings_view(params@), file),
{
    let mut tps: Vec<TypeRef> = Vec::new();
    let mut i: usize = 0;
    while i < params.len()
        invariant
            i <= params@.len(),
            tps@.len() == i,
            forall|k: int|
                0 <= k < i ==> {
                    &&& (#[trigger] tps@[k]).referent@ == crate::ir::IdentView::Local(params@[k]@)
                    &&& tps@[k].type_params@.len() == 0
                    &&& tps@[k].file == file
                },
        decreases params@.len() - i,
    {
        tps.push(TypeRef { referent: TypeIdent::LocalName(params[i].clone()), type_params: Vec::new(), file });
        i += 1;
    }
    TypeRef { referent: TypeIdent::LocalName(js.clone()), type_params: tps, file }
}

/// The text of an interface: its struct, its trait with the
/// implementations, and the serde adapters of its callable fields.
pub open spec fn is_interface_text(table: &TypeTable, js: Seq<char>, file: usize, iface: crate::ir::Interface, r: Seq<char>) -> bool {
    exists|d: crate::iface::StructDef, t: crate::traits::TraitDefn, item: TypeRef|
        {
            &&& crate::iface::is_struct_of(table, js, iface, d)
            &&& is_self_ref(item, js, crate::iface::type_param_names(iface.type_params@), file)
            &&& crate::traits::is_trait_defn(
                table,
                js,
                crate::iface::type_param_names(iface.type_params@),
                TypeInfo::Interface(iface),
                item,
                t,
            )
            &&& r == crate::emit::struct_text(d) + crate::emit::trait_text(d.name@, t) + adapters_text(
                table,
                d,
                field_types(table, iface),
            )
        }
}

pub fn render_interface(table: &TypeTable, js: &String, file: usize, info: &TypeInfo) -> (r: String)
    requires
        table.types@.len() < usize::MAX,
        info is Interface,
    ensures
        is_interface_text(table, js@, file, info->Interface_0, r@),
{
    let iface = match info {
        TypeInfo::Interface(x) => x,
        _ => {
            assert(false);
            return string_of(&Vec::new());
        },
    };
    let d = crate::iface::interface_struct(table, js.as_str(), iface);
    let params = crate::iface::type_param_strings(&iface.type_params);
    let item = self_ref(js, &params, file);
    let t = crate::traits::render_trait_defn(table, js.as_str(), &params, file, info, &item);
    proof {
        crate::traits::lemma_impl_bodies_match(table, js@, strings_view(params@), *info, item, t);
    }
    let rec = crate::iface::get_recursive_fields(table, iface);
    let mut ts: Vec<&TypeRef> = Vec::new();
    let mut i: usize = 0;
    while i < rec.len()
        invariant
            i <= rec@.len(),
            ts@.map_values(|x: &TypeRef| *x) == crate::iface::fields_view(rec@).subrange(0, i as int).map_values(|f: crate::iface::FieldV| f.1),
        decreases rec@.len() - i,
    {
        let ghost before = ts@;
        ts.push(rec[i].typ);
        assert(ts@.map_values(|x: &TypeRef| *x) =~= before.map_values(|x: &TypeRef| *x).push(*rec@[i as int].typ));
        assert(crate::iface::fields_view(rec@).subrange(0, i + 1).map_values(|f: crate::iface::FieldV| f.1) =~= crate::iface::fields_view(rec@).subrange(0, i as int).map_values(|f: crate::iface::FieldV| f.1).push(*rec@[i as int].typ));
        i += 1;
    }
    assert(crate::iface::fields_view(rec@).subrange(0, i as int) =~= crate::iface::fields_view(rec@));
    assert(ts@.map_values(|x: &TypeRef| *x) =~= field_types(table, *iface));
    let mut out: Vec<char> = Vec::new();
    let st = crate::emit::render_struct(&d);
    push_str(&mut out, st.as_str());
    let tt = crate::emit::render_trait(d.name.as_str(), &t);
    push_str(&mut out, tt.as_str());
    push_adapters(&mut out, table, &d, &ts);
    let r = string_of(&out);
    assert(r@ =~= crate::emit::struct_text(d) + crate::emit::trait_text(d.name@, t) + adapters_text(table, d, field_types(table, *iface)));
    r
}


/// The declarations a class member contributes to the extern block of the
/// class `name` (JS name `js`).
pub open spec fn class_member_def(table: &TypeTable, js: Seq<char>, name: Seq<char>, n: Seq<char>, m: crate::ir::Member) -> Seq<char> {
    match m {
        crate::ir::Member::Constructor(c) => "#[wasm_bindgen(constructor)]\npub fn new("@ + crate::funcs::param_list(
            table,
            crate::funcs::declared_view(c.params@),
            crate::funcs::ParamText::RustNamed,
        ) + ") -> "@ + name + ";\n"@,
        crate::ir::Member::Method(f) => "#[wasm_bindgen(js_name = \""@ + crate::emit::escape(n) + "\", method, js_class = \""@
            + crate::emit::escape(js) + "\", catch"@ + (if spec_is_variadic(f) {
            ", variadic"@
        } else {
            Seq::empty()
        }) + ")]\npub "@ + js_fn_decl(table, FnProto::Func(&f), internal_name(n)) + ";\n"@,
        crate::ir::Member::Property(t) => {
            let sn = sanitize(snake_of(n));
            let ty = spec_text(table, t, Position::Plain, depth());
            "#[wasm_bindgen(method, structural, getter = \""@ + crate::emit::escape(n) + "\")]\nfn "@ + sn
                + "(this: &"@ + name + ") -> "@ + ty + ";\n#[wasm_bindgen(method, structural, setter = \""@
                + crate::emit::escape(n) + "\")]\nfn set_"@ + sn + "(this: &"@ + name + ", value: "@ + ty + ");\n"@
        },
    }
}

/// The wrapper a class member contributes to the class's inherent impl:
/// one for each method.
pub open spec fn class_member_wrapper(table: &TypeTable, n: Seq<char>, m: crate::ir::Member) -> Seq<char> {
    match m {
        crate::ir::Member::Method(f) => wrapper_text(table, FnProto::Func(&f), sanitize(snake_of(n)), internal_name(n)),
        _ => Seq::empty(),
    }
}

/// `Clone` and serde by way of the JS value, for the class handle `name`.
pub open spec fn class_impls_text(name: Seq<char>) -> Seq<char> {
    "impl Clone for "@ + name + " {\nfn clone(&self) -> Self {\nSelf { obj: self.obj.clone() }\n}\n}\nimpl serde::ser::Serialize for "@
        + name
        + " {\nfn serialize<S>(&self, serializer: S) -> std::result::Result<S::Ok, S::Error>\nwhere\nS: serde::ser::Serializer,\n{\nts_bindgen_rt::serialize_as_jsvalue(serializer, self)\n}\n}\nimpl<'de> serde::de::Deserialize<'de> for "@
        + name
        + " {\nfn deserialize<D>(deserializer: D) -> std::result::Result<Self, D::Error>\nwhere\nD: serde::de::Deserializer<'de>,\n{\nts_bindgen_rt::deserialize_as_jsvalue(deserializer)\n}\n}\n"@
}

/// The text of a class: its extern block (the handle type, extending the
/// super-class's, and each member's declaration), the wrappers of its
/// methods, its trait with the implementations, and its `Clone` and serde
/// impls.
pub open spec fn is_class_text(
    table: &TypeTable,
    path: Seq<char>,
    js: Seq<char>,
    vis: Seq<char>,
    file: usize,
    c: crate::ir::Class,
    r: Seq<char>,
) -> bool {
    let name = sanitize(camel_of(js));
    let ms = c.members@;
    let defs = Seq::new(ms.len(), |i: int| class_member_def(table, js, name, ms[i].0@, ms[i].1));
    let wrappers = Seq::new(ms.len(), |i: int| class_member_wrapper(table, ms[i].0@, ms[i].1));
    exists|t: crate::traits::TraitDefn, item: TypeRef|
        {
            &&& is_self_ref(item, js, crate::iface::type_param_names(c.type_params@), file)
            &&& crate::traits::is_trait_defn(
                table,
                js,
                crate::iface::type_param_names(c.type_params@),
                TypeInfo::Class(c),
                item,
                t,
            )
            &&& r == class_assembly(
                class_head(path, js, c.super_class),
                vis,
                name,
                join(defs, Seq::empty()),
                join(wrappers, Seq::empty()),
                crate::emit::trait_text(name, t),
            )
        }
}

/// The opening of a class's extern block, up to the handle type.
pub open spec fn class_head(path: Seq<char>, js: Seq<char>, sup: Option<TypeRef>) -> Seq<char> {
    "#[wasm_bindgen(module = \""@ + crate::emit::escape(path) + "\")]\nextern \"C\" {\n#[wasm_bindgen(js_name = \""@
        + crate::emit::escape(js) + "\""@ + match sup {
        Some(s) => ", extends = "@ + crate::project::name_text(s.referent),
        None => Seq::empty(),
    } + ")]\n"@
}

/// A class's text from its parts.
pub open spec fn class_assembly(
    head: Seq<char>,
    vis: Seq<char>,
    name: Seq<char>,
    defs: Seq<char>,
    wrappers: Seq<char>,
    trait_part: Seq<char>,
) -> Seq<char> {
    head + vis + "type "@ + name + ";\n"@ + defs + "}\nimpl "@ + name + " {\n"@ + wrappers + "}\n"@ + trait_part
        + class_impls_text(name)
}

fn class_head_string(path: &String, js: &String, sup: &Option<TypeRef>) -> (r: Vec<char>)
    ensures
        r@ == class_head(path@, js@, *sup),
{
    let mut out: Vec<char> = Vec::new();
    push_str(&mut out, "#[wasm_bindgen(module = \"");
    crate::emit::push_escaped(&mut out, path);
    push_str(&mut out, "\")]\nextern \"C\" {\n#[wasm_bindgen(js_name = \"");
    crate::emit::push_escaped(&mut out, js);
    push_str(&mut out, "\"");
    let ghost head = out@;
    match sup {
        Some(s) => {
            push_str(&mut out, ", extends = ");
            crate::project::push_name_text(&mut out, &s.referent);
        },
        None => {
            assert(out@ =~= head + Seq::<char>::empty());
        },
    }
    push_str(&mut out, ")]\n");
    assert(out@ =~= class_head(path@, js@, *sup));
    out
}

fn class_assembly_string(head: &Vec<char>, is_exported: bool, name: &String, defs: &String, wrappers: &String, trait_part: &String) -> (r: String)
    ensures
        r@ == class_assembly(head@, vis_text(is_exported), name@, defs@, wrappers@, trait_part@),
{
    let mut out: Vec<char> = Vec::new();
    push_chars(&mut out, head);
    push_vis(&mut out, is_exported);
    push_str(&mut out, "type ");
    push_str(&mut out, name.as_str());
    push_str(&mut out, ";\n");
    push_str(&mut out, defs.as_str());
    push_str(&mut out, "}\nimpl ");
    push_str(&mut out, name.as_str());
    push_str(&mut out, " {\n");
    push_str(&mut out, wrappers.as_str());
    push_str(&mut out, "}\n");
    push_str(&mut out, trait_part.as_str());
    push_str(&mut out, "impl Clone for ");
    push_str(&mut out, name.as_str());
    push_str(&mut out, " {\nfn clone(&self) -> Self {\nSelf { obj: self.obj.clone() }\n}\n}\nimpl serde::ser::Serialize for ");
    push_str(&mut out, name.as_str());
    push_str(&mut out, " {\nfn serialize<S>(&self, serializer: S) -> std::result::Result<S::Ok, S::Error>\nwhere\nS: serde::ser::Serializer,\n{\nts_bindgen_rt::serialize_as_jsvalue(serializer, self)\n}\n}\nimpl<'de> serde::de::Deserialize<'de> for ");
    push_str(&mut out, name.as_str());
    push_str(&mut out, " {\nfn deserialize<D>(deserializer: D) -> std::result::Result<Self, D::Error>\nwhere\nD: serde::de::Deserializer<'de>,\n{\nts_bindgen_rt::deserialize_as_jsvalue(deserializer)\n}\n}\n");
    let r = string_of(&out);
    assert(r@ =~= class_assembly(head@, vis_text(is_exported), name@, defs@, wrappers@, trait_part@));
    r
}

fn member_def_string(table: &TypeTable, js: &String, name: &String, n: &String, m: &crate::ir::Member) -> (r: String)
    ensures
        r@ == class_member_def(table, js@, name@, n@, *m),
{
    let mut t: Vec<char> = Vec::new();
    match m {
        crate::ir::Member::Constructor(c) => {
            push_str(&mut t, "#[wasm_bindgen(constructor)]\npub fn new(");
            let ctor = crate::funcs::Constructor::new(c, TypeIdent::LocalName(js.clone()), 0);
            let ps = FnProto::Ctor(&ctor).params();
            crate::funcs::push_param_list(&mut t, table, &ps, crate::funcs::ParamText::RustNamed);
            push_str(&mut t, ") -> ");
            push_str(&mut t, name.as_str());
            push_str(&mut t, ";\n");
        },
        crate::ir::Member::Method(f) => {
            push_str(&mut t, "#[wasm_bindgen(js_name = \"");
            crate::emit::push_escaped(&mut t, n);
            push_str(&mut t, "\", method, js_class = \"");
            crate::emit::push_escaped(&mut t, js);
            push_str(&mut t, "\", catch");
            let ghost head = t@;
            if is_variadic(f) {
                push_str(&mut t, ", variadic");
            } else {
                assert(t@ =~= head + Seq::<char>::empty());
            }
            push_str(&mut t, ")]\npub ");
            let internal = InternalFunc::to_internal_rust_name(n.as_str()).render();
            assert(internal@ =~= internal_name(n@));
            FnProto::Func(f).push_js_fn_decl(&mut t, table, internal.as_str());
            push_str(&mut t, ";\n");
        },
        crate::ir::Member::Property(ty) => {
            let sn = snake_string(n.as_str());
            let mut tt: Vec<char> = Vec::new();
            push_text(&mut tt, table, ty, Position::Plain, usize::MAX);
            push_str(&mut t, "#[wasm_bindgen(method, structural, getter = \"");
            crate::emit::push_escaped(&mut t, n);
            push_str(&mut t, "\")]\nfn ");
            push_str(&mut t, sn.as_str());
            push_str(&mut t, "(this: &");
            push_str(&mut t, name.as_str());
            push_str(&mut t, ") -> ");
            push_chars(&mut t, &tt);
            push_str(&mut t, ";\n#[wasm_bindgen(method, structural, setter = \"");
            crate::emit::push_escaped(&mut t, n);
            push_str(&mut t, "\")]\nfn set_");
            push_str(&mut t, sn.as_str());
            push_str(&mut t, "(this: &");
            push_str(&mut t, name.as_str());
            push_str(&mut t, ", value: ");
            push_chars(&mut t, &tt);
            push_str(&mut t, ");\n");
        },
    }
    let r = string_of(&t);
    assert(r@ =~= class_member_def(table, js@, name@, n@, *m));
    r
}

fn member_wrapper_string(table: &TypeTable, n: &String, m: &crate::ir::Member) -> (r: String)
    ensures
        r@ == class_member_wrapper(table, n@, *m),
{
    let mut t: Vec<char> = Vec::new();
    match m {
        crate::ir::Member::Method(f) => {
            let name = snake_string(n.as_str());
            let internal = InternalFunc::to_internal_rust_name(n.as_str()).render();
            assert(internal@ =~= internal_name(n@));
            FnProto::Func(f).push_wrapper(&mut t, table, name.as_str(), internal.as_str());
        },
        _ => {},
    }
    let r = string_of(&t);
    assert(r@ =~= class_member_wrapper(table, n@, *m));
    r
}

/// The declarations and the wrappers of the members of class `c`, named
/// `name` (JS name `js`), each joined.
fn class_member_strings(table: &TypeTable, js: &String, name: &String, c: &crate::ir::Class) -> (r: (String, String))
    ensures
        r.0@ == join(
            Seq::new(c.members@.len(), |i: int| class_member_def(table, js@, name@, c.members@[i].0@, c.members@[i].1)),
            Seq::empty(),
        ),
        r.1@ == join(
            Seq::new(c.members@.len(), |i: int| class_member_wrapper(table, c.members@[i].0@, c.members@[i].1)),
            Seq::empty(),
        ),
{
    let ghost ms = c.members@;
    let ghost defs_v = Seq::new(ms.len(), |i: int| class_member_def(table, js@, name@, ms[i].0@, ms[i].1));
    let ghost wr_v = Seq::new(ms.len(), |i: int| class_member_wrapper(table, ms[i].0@, ms[i].1));
    let mut defs: Vec<String> = Vec::new();
    let mut wrappers: Vec<String> = Vec::new();
    let mut i: usize = 0;
    while i < c.members.len()
        invariant
            i <= c.members@.len(),
            ms == c.members@,
            defs_v == Seq::new(ms.len(), |i: int| class_member_def(table, js@, name@, ms[i].0@, ms[i].1)),
            wr_v == Seq::new(ms.len(), |i: int| class_member_wrapper(table, ms[i].0@, ms[i].1)),
            strings_view(defs@) == defs_v.subrange(0, i as int),
            strings_view(wrappers@) == wr_v.subrange(0, i as int),
        decreases c.members@.len() - i,
    {
        let ghost bd = strings_view(defs@);
        let ghost bw = strings_view(wrappers@);
        defs.push(member_def_string(table, js, name, &c.members[i].0, &c.members[i].1));
        wrappers.push(member_wrapper_string(table, &c.members[i].0, &c.members[i].1));
        assert(strings_view(defs@) =~= bd.push(defs_v[i as int]));
        assert(strings_view(wrappers@) =~= bw.push(wr_v[i as int]));
        assert(defs_v.subrange(0, i + 1) =~= defs_v.subrange(0, i as int).push(defs_v[i as int]));
        assert(wr_v.subrange(0, i + 1) =~= wr_v.subrange(0, i as int).push(wr_v[i as int]));
        i += 1;
    }
    assert(defs_v.subrange(0, i as int) =~= defs_v);
    assert(wr_v.subrange(0, i as int) =~= wr_v);
    proof {
        reveal_strlit("");
    }
    assert(""@ =~= Seq::<char>::empty());
    (join_strings(&defs, ""), join_strings(&wrappers, ""))
}

pub fn render_class(table: &TypeTable, path: &String, js: &String, is_exported: bool, file: usize, info: &TypeInfo) -> (r: String)
    requires
        table.types@.len() < usize::MAX,
        info is Class,
    ensures
        is_class_text(table, path@, js@, vis_text(is_exported), file, info->Class_0, r@),
{
    let c = match info {
        TypeInfo::Class(x) => x,
        _ => {
            assert(false);
            return string_of(&Vec::new());
        },
    };
    let name = camel_string(js.as_str());
    let (dj, wj) = class_member_strings(table, js, &name, c);
    let params = crate::iface::type_param_strings(&c.type_params);
    let item = self_ref(js, &params, file);
    let t = crate::traits::render_trait_defn(table, js.as_str(), &params, file, info, &item);
    proof {
        crate::traits::lemma_impl_bodies_match(table, js@, strings_view(params@), *info, item, t);
    }
    let tt = crate::emit::render_trait(name.as_str(), &t);
    let head = class_head_string(path, js, &c.super_class);
    class_assembly_string(&head, is_exported, &name, &dj, &wj, &tt)
}


/// The path, from the module of a type whose module path has `depth`
/// segments, to the module of file `src`.
pub open spec fn ns_path_text(table: &TypeTable, depth: nat, src: int) -> Seq<char> {
    join(
        crate::modpath::spec_relative_ns(
            depth,
            crate::modpath::spec_path_segments(strings_view(table.files@[src]@)),
        ).map_values(|v: (Seq<Seq<char>>, Seq<Seq<char>>)| crate::ident::render_view(v)),
        "::"@,
    )
}

/// The depth of the module of a type named `n` in file `file`.
pub open spec fn type_depth(table: &TypeTable, file: int, n: TypeIdent) -> nat {
    (crate::modpath::spec_path_segments(strings_view(table.files@[file]@)).len()
        + crate::modpath::spec_name_segments(n).len()) as nat
}

/// The re-export of a namespace import named `js` (target name `name`).
pub open spec fn import_text(table: &TypeTable, vis: Seq<char>, js: Seq<char>, name: Seq<char>, depth: nat, imp: NamespaceImport) -> Seq<char> {
    match imp {
        NamespaceImport::All { src } => if src < table.files@.len() {
            vis + "use "@ + ns_path_text(table, depth, src as int) + " as "@ + sanitize(snake_of(js)) + ";\n"@
        } else {
            Seq::empty()
        },
        NamespaceImport::Default { src } => if src < table.files@.len() {
            vis + "use "@ + ns_path_text(table, depth, src as int) + "::default as "@ + name + ";\n"@
        } else {
            Seq::empty()
        },
        NamespaceImport::Named { src, name: item } => if src < table.files@.len() {
            vis + "use "@ + ns_path_text(table, depth, src as int) + "::"@ + sanitize(camel_of(item@)) + " as "@ + name
                + ";\n"@
        } else {
            Seq::empty()
        },
    }
}

fn ns_path_string(table: &TypeTable, depth: usize, src: usize) -> (r: String)
    requires
        src < table.files@.len(),
    ensures
        r@ == ns_path_text(table, depth as nat, src as int),
{
    let segs = path_segments(&table.files[src]);
    let rel = crate::modpath::relative_ns(depth, &segs);
    let mut parts: Vec<String> = Vec::new();
    let ghost rv = idents_view(rel@);
    let mut i: usize = 0;
    while i < rel.len()
        invariant
            i <= rel@.len(),
            rv == idents_view(rel@),
            strings_view(parts@) == rv.subrange(0, i as int).map_values(|v: (Seq<Seq<char>>, Seq<Seq<char>>)| crate::ident::render_view(v)),
        decreases rel@.len() - i,
    {
        let ghost before = strings_view(parts@);
        parts.push(rel[i].render());
        assert(strings_view(parts@) =~= before.push(crate::ident::render_view(rv[i as int])));
        assert(rv.subrange(0, i + 1).map_values(|v: (Seq<Seq<char>>, Seq<Seq<char>>)| crate::ident::render_view(v)) =~= rv.subrange(0, i as int).map_values(|v: (Seq<Seq<char>>, Seq<Seq<char>>)| crate::ident::render_view(v)).push(crate::ident::render_view(rv[i as int])));
        i += 1;
    }
    assert(rv.subrange(0, i as int) =~= rv);
    join_strings(&parts, "::")
}

pub fn render_import(table: &TypeTable, is_exported: bool, js: &String, name: &String, depth: usize, imp: &NamespaceImport) -> (r: String)
    ensures
        r@ == import_text(table, vis_text(is_exported), js@, name@, depth as nat, *imp),
{
    let mut t: Vec<char> = Vec::new();
    match imp {
        NamespaceImport::All { src } => {
            if *src < table.files.len() {
                push_vis(&mut t, is_exported);
                push_str(&mut t, "use ");
                let ns = ns_path_string(table, depth, *src);
                push_str(&mut t, ns.as_str());
                push_str(&mut t, " as ");
                let sn = snake_string(js.as_str());
                push_str(&mut t, sn.as_str());
                push_str(&mut t, ";\n");
            }
        },
        NamespaceImport::Default { src } => {
            if *src < table.files.len() {
                push_vis(&mut t, is_exported);
                push_str(&mut t, "use ");
                let ns = ns_path_string(table, depth, *src);
                push_str(&mut t, ns.as_str());
                push_str(&mut t, "::default as ");
                push_str(&mut t, name.as_str());
                push_str(&mut t, ";\n");
            }
        },
        NamespaceImport::Named { src, name: item } => {
            if *src < table.files.len() {
                push_vis(&mut t, is_exported);
                push_str(&mut t, "use ");
                let ns = ns_path_string(table, depth, *src);
                push_str(&mut t, ns.as_str());
                push_str(&mut t, "::");
                let cn = camel_string(item.as_str());
                push_str(&mut t, cn.as_str());
                push_str(&mut t, " as ");
                push_str(&mut t, name.as_str());
                push_str(&mut t, ";\n");
            }
        },
    }
    let r = string_of(&t);
    assert(r@ =~= import_text(table, vis_text(is_exported), js@, name@, depth as nat, *imp));
    r
}


/// The fields of an intersection: those of each member that is an
/// interface, a later member's field winning over an earlier one's.
pub open spec fn intersection_fields(table: &TypeTable, ms: Seq<TypeRef>) -> Seq<crate::iface::FieldV>
    decreases ms.len(),
{
    if ms.len() == 0 {
        Seq::empty()
    } else {
        let acc = intersection_fields(table, ms.drop_last());
        match crate::iface::resolved_interface(table, ms.last()) {
            Some(x) => crate::iface::merge_fields(
                crate::iface::spec_recursive_fields(table, x, Seq::empty(), crate::resolve::table_fuel(table)),
                acc,
            ),
            None => acc,
        }
    }
}

/// The index signature of an intersection: the first one among its
/// interface members.
pub open spec fn intersection_indexer(table: &TypeTable, ms: Seq<TypeRef>) -> Option<TypeRef>
    decreases ms.len(),
{
    if ms.len() == 0 {
        None
    } else {
        match crate::iface::resolved_interface(table, ms[0]) {
            Some(x) => match x.indexer {
                Some(ix) => Some(ix.value_type),
                None => intersection_indexer(table, ms.drop_first()),
            },
            None => intersection_indexer(table, ms.drop_first()),
        }
    }
}

/// The declarations of the fields as properties, each under its own
/// environment.
pub open spec fn field_decls(table: &TypeTable, js: Seq<char>, fs: Seq<crate::iface::FieldV>) -> Seq<Seq<char>>
    decreases fs.len(),
{
    if fs.len() == 0 {
        Seq::empty()
    } else {
        field_decls(table, js, fs.drop_last()) + crate::traits::member_decls(
            table,
            js,
            fs.last().2,
            fs.last().0,
            crate::ir::Member::Property(fs.last().1),
        )
    }
}

/// The trait of an interface made of the fields `fs` and nothing else.
pub open spec fn plain_trait_text(table: &TypeTable, js: Seq<char>, fs: Seq<crate::iface::FieldV>) -> Seq<char> {
    "trait "@ + sanitize(camel_of(js)) + "Trait {\n"@ + join(
        crate::emit::framed(field_decls(table, js, fs), Seq::empty(), ";\n"@),
        Seq::empty(),
    ) + "}\n"@
}

/// The text of an intersection whose members are interfaces: the struct
/// of the merged fields, its trait, and its serde adapters.
pub open spec fn is_intersection_text(table: &TypeTable, js: Seq<char>, ms: Seq<TypeRef>, r: Seq<char>) -> bool {
    let fs = intersection_fields(table, ms);
    exists|d: crate::iface::StructDef|
        {
            &&& crate::iface::is_struct_for(table, js, Seq::empty(), fs, intersection_indexer(table, ms), d)
            &&& r == crate::emit::struct_text(d) + plain_trait_text(table, js, fs) + adapters_text(
                table,
                d,
                fs.map_values(|f: crate::iface::FieldV| f.1),
            )
        }
}

fn intersection_indexer_of<'a>(table: &'a TypeTable, ms: &Vec<TypeRef>) -> (r: Option<&'a TypeRef>)
    ensures
        match r {
            Some(t) => intersection_indexer(table, ms@) == Some(*t),
            None => intersection_indexer(table, ms@) is None,
        },
{
    let mut i: usize = 0;
    assert(ms@.subrange(0, ms@.len() as int) =~= ms@);
    while i < ms.len()
        invariant
            i <= ms@.len(),
            intersection_indexer(table, ms@) == intersection_indexer(table, ms@.subrange(i as int, ms@.len() as int)),
        decreases ms@.len() - i,
    {
        let ghost rest = ms@.subrange(i as int, ms@.len() as int);
        assert(rest.drop_first() =~= ms@.subrange(i + 1, ms@.len() as int));
        assert(rest[0] == ms@[i as int]);
        match crate::iface::interface_of(table, &ms[i]) {
            Some(x) => match &x.indexer {
                Some(ix) => {
                    return Some(&ix.value_type);
                },
                None => {},
            },
            None => {},
        }
        i += 1;
    }
    None
}

fn intersection_field_refs<'a>(table: &'a TypeTable, ms: &Vec<TypeRef>) -> (acc: Vec<crate::iface::FieldRef<'a>>)
    requires
        table.types@.len() < usize::MAX,
    ensures
        crate::iface::fields_view(acc@) == intersection_fields(table, ms@),
{
    let mut acc: Vec<crate::iface::FieldRef<'a>> = Vec::new();
    let mut k: usize = 0;
    while k < ms.len()
        invariant
            table.types@.len() < usize::MAX,
            k <= ms@.len(),
            crate::iface::fields_view(acc@) == intersection_fields(table, ms@.subrange(0, k as int)),
        decreases ms@.len() - k,
    {
        let ghost sub = ms@.subrange(0, k + 1);
        assert(sub.drop_last() =~= ms@.subrange(0, k as int));
        match crate::iface::interface_of(table, &ms[k]) {
            Some(x) => {
                let mut next = crate::iface::get_recursive_fields(table, x);
                crate::iface::merge_into(&mut next, &acc);
                acc = next;
            },
            None => {},
        }
        k += 1;
    }
    assert(ms@.subrange(0, k as int) =~= ms@);
    acc
}

fn property_decls<'a>(table: &TypeTable, js: &String, file: usize, acc: &Vec<crate::iface::FieldRef<'a>>) -> (r: (Vec<String>, Vec<&'a TypeRef>))
    ensures
        strings_view(r.0@) == field_decls(table, js@, crate::iface::fields_view(acc@)),
        r.1@.map_values(|x: &TypeRef| *x) == crate::iface::fields_view(acc@).map_values(|f: crate::iface::FieldV| f.1),
{
    let ghost fs = crate::iface::fields_view(acc@);
    let mut decls: Vec<String> = Vec::new();
    let mut ts: Vec<&'a TypeRef> = Vec::new();
    let mut i: usize = 0;
    while i < acc.len()
        invariant
            i <= acc@.len(),
            fs == crate::iface::fields_view(acc@),
            strings_view(decls@) == field_decls(table, js@, fs.subrange(0, i as int)),
            ts@.map_values(|x: &TypeRef| *x) == fs.subrange(0, i as int).map_values(|f: crate::iface::FieldV| f.1),
        decreases acc@.len() - i,
    {
        let ghost sub = fs.subrange(0, i + 1);
        assert(sub.drop_last() =~= fs.subrange(0, i as int));
        assert(sub.last() == crate::iface::field_view(acc@[i as int]));
        crate::traits::push_member_decls(&mut decls, table, js.as_str(), file, &acc[i].env, &acc[i].name, crate::traits::MemberRef::Property(acc[i].typ));
        let ghost before = ts@;
        ts.push(acc[i].typ);
        assert(ts@.map_values(|x: &TypeRef| *x) =~= before.map_values(|x: &TypeRef| *x).push(*acc@[i as int].typ));
        assert(sub.map_values(|f: crate::iface::FieldV| f.1) =~= fs.subrange(0, i as int).map_values(|f: crate::iface::FieldV| f.1).push(*acc@[i as int].typ));
        i += 1;
    }
    assert(fs.subrange(0, i as int) =~= fs);
    (decls, ts)
}

fn plain_trait_string(js: &String, decls: &Vec<String>) -> (r: String)
    ensures
        r@ == "trait "@ + sanitize(camel_of(js@)) + "Trait {\n"@ + join(
            crate::emit::framed(strings_view(decls@), Seq::empty(), ";\n"@),
            Seq::empty(),
        ) + "}\n"@,
{
    proof {
        reveal_strlit("");
    }
    assert(""@ =~= Seq::<char>::empty());
    let framed_decls = crate::emit::frame_all(decls, "", ";\n");
    let dj = join_strings(&framed_decls, "");
    let mut out: Vec<char> = Vec::new();
    push_str(&mut out, "trait ");
    let cn = camel_string(js.as_str());
    push_str(&mut out, cn.as_str());
    push_str(&mut out, "Trait {\n");
    push_str(&mut out, dj.as_str());
    push_str(&mut out, "}\n");
    string_of(&out)
}

pub fn render_intersection(table: &TypeTable, js: &String, file: usize, ms: &Vec<TypeRef>) -> (r: String)
    requires
        table.types@.len() < usize::MAX,
    ensures
        is_intersection_text(table, js@, ms@, r@),
{
    let acc = intersection_field_refs(table, ms);
    let ghost fs = crate::iface::fields_view(acc@);
    let indexer = intersection_indexer_of(table, ms);
    let no_params: Vec<String> = Vec::new();
    assert(strings_view(no_params@) =~= Seq::<Seq<char>>::empty());
    let d = crate::iface::struct_from_fields(table, js.as_str(), &no_params, &acc, indexer);
    let (decls, ts) = property_decls(table, js, file, &acc);
    let pt = plain_trait_string(js, &decls);
    assert(ts@.map_values(|x: &TypeRef| *x).len() == ts@.len());
    assert(ts@.len() == fs.len());
    let mut out: Vec<char> = Vec::new();
    let st = crate::emit::render_struct(&d);
    push_str(&mut out, st.as_str());
    push_str(&mut out, pt.as_str());
    push_adapters(&mut out, table, &d, &ts);
    let r = string_of(&out);
    assert(r@ =~= crate::emit::struct_text(d) + plain_trait_text(table, js@, fs) + adapters_text(
        table,
        d,
        fs.map_values(|f: crate::iface::FieldV| f.1),
    ));
    r
}


/// What emitting `info` under the name of type `t` gives.
pub open spec fn is_emitted(table: &TypeTable, t: int, info: TypeInfo, fuel: nat, r: Result<String, EmitError>) -> bool
    decreases fuel,
{
    let ty = table.types@[t];
    let js = js_name_of(ty.name);
    let name = sanitize(camel_of(js));
    let file = ty.file;
    let path = js_module_path(strings_view(table.files@[file as int]@), table.project_roots@[file as int] as int);
    let vis = vis_text(ty.is_exported);
    match info {
        TypeInfo::Interface(i) => r is Ok && is_interface_text(table, js, file, i, r->Ok_0@),
        TypeInfo::Class(c) => r is Ok && is_class_text(table, path, js, vis, file, c, r->Ok_0@),
        TypeInfo::Enum(ms) => r is Ok && r->Ok_0@ == enum_text(name, ms@),
        TypeInfo::Alias(target) => r is Ok && r->Ok_0@ == alias_text(table, vis, name, target),
        TypeInfo::Ref(_) => false,
        TypeInfo::Union(ms) => r is Ok && exists|cs: Seq<crate::union::UnionCase>|
            crate::union::is_union_cases(table, ms@, cs) && r->Ok_0@ == crate::emit::union_text(name, cs),
        TypeInfo::Tuple(ms) => r is Ok && r->Ok_0@ == tuple_text(table, name, ms@),
        TypeInfo::Func(f) => r is Ok && r->Ok_0@ == func_text(table, path, js, f),
        TypeInfo::Intersection(ms) => if ms@.len() == 0 {
            false
        } else if all_interfaces(table, ms@) {
            r is Ok && is_intersection_text(table, js, ms@, r->Ok_0@)
        } else {
            match crate::resolve::spec_resolve(table, &ms@[0]) {
                Some(crate::resolve::Resolved::At(j)) => if fuel > 0 && j < table.types@.len() {
                    is_emitted(table, t, table.types@[j as int].info, (fuel - 1) as nat, r)
                } else {
                    r is Ok && r->Ok_0@.len() == 0
                },
                _ => r is Ok && r->Ok_0@.len() == 0,
            }
        },
        TypeInfo::NamespaceImport(imp) => r is Ok && r->Ok_0@ == import_text(
            table,
            vis,
            js,
            name,
            type_depth(table, file as int, ty.name),
            imp,
        ),
        _ => r is Ok && r->Ok_0@.len() == 0,
    }
}

/// Every member resolves to an interface.
pub open spec fn all_interfaces(table: &TypeTable, ms: Seq<TypeRef>) -> bool {
    forall|i: int| 0 <= i < ms.len() ==> (#[trigger] crate::iface::resolved_interface(table, ms[i])) is Some
}

#[verifier::rlimit(50)]
fn all_interfaces_of(table: &TypeTable, ms: &Vec<TypeRef>) -> (r: bool)
    ensures
        r == all_interfaces(table, ms@),
{
    let mut i: usize = 0;
    while i < ms.len()
        invariant
            i <= ms@.len(),
            forall|k: int| 0 <= k < i ==> (#[trigger] crate::iface::resolved_interface(table, ms@[k])) is Some,
        decreases ms@.len() - i,
    {
        let x = crate::iface::interface_of(table, &ms[i]);
        if x.is_none() {
            return false;
        }
        assert(crate::iface::resolved_interface(table, ms@[i as int]) is Some);
        i += 1;
    }
    true
}

/// A shape that can stand as a named type: anything but a bare reference
/// or an intersection without members.
pub open spec fn info_emittable(info: TypeInfo) -> bool {
    match info {
        TypeInfo::Ref(_) => false,
        TypeInfo::Intersection(ms) => ms@.len() > 0,
        _ => true,
    }
}

/// Every type of the table can stand as a named type.
pub open spec fn emittable(table: &TypeTable) -> bool {
    forall|t: int| 0 <= t < table.types@.len() ==> #[trigger] info_emittable(table.types@[t].info)
}

/// Some type of the table is what `e` reports: a bare reference, or an
/// intersection without members.
pub open spec fn first_unemittable_spec(table: &TypeTable, e: EmitError) -> bool {
    match e {
        EmitError::RefAtTopLevel => exists|t: int| 0 <= t < table.types@.len() && (#[trigger] table.types@[t]).info is Ref,
        EmitError::EmptyIntersection => exists|t: int|
            0 <= t < table.types@.len() && match (#[trigger] table.types@[t]).info {
                TypeInfo::Intersection(ms) => ms@.len() == 0,
                _ => false,
            },
    }
}

/// The first type of the table that cannot stand as a named type, and why.
pub fn first_unemittable(table: &TypeTable) -> (r: Option<EmitError>)
    ensures
        r is None <==> emittable(table),
        match r {
            Some(e) => first_unemittable_spec(table, e),
            None => true,
        },
{
    let mut t: usize = 0;
    while t < table.types.len()
        invariant
            t <= table.types@.len(),
            forall|k: int| 0 <= k < t ==> #[trigger] info_emittable(table.types@[k].info),
        decreases table.types@.len() - t,
    {
        match &table.types[t].info {
            TypeInfo::Ref(_) => {
                assert(table.types@[t as int].info is Ref);
                assert(!info_emittable(table.types@[t as int].info));
                return Some(EmitError::RefAtTopLevel);
            },
            TypeInfo::Intersection(ms) => {
                if ms.len() == 0 {
                    assert(!info_emittable(table.types@[t as int].info));
                    return Some(EmitError::EmptyIntersection);
                }
            },
            _ => {},
        }
        t += 1;
    }
    None
}

fn empty_text() -> (r: String)
    ensures
        r@.len() == 0,
{
    string_of(&Vec::new())
}

fn emit_info(table: &TypeTable, t: usize, info: &TypeInfo, fuel: usize) -> (r: Result<String, EmitError>)
    requires
        table.wf(),
        t < table.types@.len(),
        table.types@.len() < usize::MAX,
        emittable(table),
        info_emittable(*info),
    ensures
        r is Ok,
        is_emitted(table, t as int, *info, fuel as nat, r),
    decreases fuel,
{
    let ty = &table.types[t];
    let js = js_name_string(&ty.name);
    let name = camel_string(js.as_str());
    let file = ty.file;
    match info {
        TypeInfo::Interface(_) => Ok(render_interface(table, &js, file, info)),
        TypeInfo::Class(_) => {
            let path = module_path_of(&table.files[file], table.project_roots[file]);
            Ok(render_class(table, &path, &js, ty.is_exported, file, info))
        },
        TypeInfo::Enum(ms) => Ok(render_enum(name.as_str(), ms)),
        TypeInfo::Alias(target) => Ok(render_alias(table, ty.is_exported, name.as_str(), target)),
        TypeInfo::Ref(_) => {
            assert(false);
            Err(EmitError::RefAtTopLevel)
        },
        TypeInfo::Union(ms) => {
            let cs = crate::union::union_cases(table, ms);
            Ok(crate::emit::render_union(name.as_str(), &cs))
        },
        TypeInfo::Tuple(ms) => Ok(render_tuple(table, name.as_str(), ms)),
        TypeInfo::Func(f) => {
            let path = module_path_of(&table.files[file], table.project_roots[file]);
            Ok(render_func(table, &path, &js, f))
        },
        TypeInfo::Intersection(ms) => {
            if ms.len() == 0 {
                assert(false);
                return Err(EmitError::EmptyIntersection);
            }
            if all_interfaces_of(table, ms) {
                Ok(render_intersection(table, &js, file, ms))
            } else {
                match crate::resolve::resolve_target_type(table, &ms[0]) {
                    Some(crate::resolve::Resolved::At(j)) => {
                        if fuel > 0 && j < table.types.len() {
                            assert(info_emittable(table.types@[j as int].info));
                            emit_info(table, t, &table.types[j].info, fuel - 1)
                        } else {
                            Ok(empty_text())
                        }
                    },
                    _ => Ok(empty_text()),
                }
            }
        },
        TypeInfo::NamespaceImport(imp) => {
            let mp = crate::modpath::mod_path(&table.files[file], &ty.name);
            let depth = mp.len();
            assert(idents_view(mp@).len() == mp@.len());
            Ok(render_import(table, ty.is_exported, &js, &name, depth, imp))
        },
        _ => Ok(empty_text()),
    }
}

/// Emits the named type `t`: the items that stand for it in its module.
/// A reference that resolves nowhere yields nothing.
pub fn emit_type(table: &TypeTable, t: usize) -> (r: String)
    requires
        table.wf(),
        t < table.types@.len(),
        table.types@.len() < usize::MAX,
        emittable(table),
    ensures
        is_emitted(table, t as int, table.types@[t as int].info, crate::resolve::table_fuel(table), Ok(r)),
{
    match emit_info(table, t, &table.types[t].info, table.types.len() + 1) {
        Ok(text) => text,
        Err(_) => {
            assert(false);
            empty_text()
        },
    }
}


/// `s` is the text of the type at index `t`, or nothing for an index the
/// table lacks.
pub open spec fn type_text_ok(table: &TypeTable, t: usize, s: String) -> bool {
    if t < table.types@.len() {
        is_emitted(table, t as int, table.types@[t as int].info, crate::resolve::table_fuel(table), Ok(s))
    } else {
        s@.len() == 0
    }
}

/// The opening of a module.
pub open spec fn mod_header(name: Seq<char>, has_types: bool) -> Seq<char> {
    "#[cfg(target_arch = \"wasm32\")]\npub mod "@ + name + " {\n"@ + if has_types {
        "use wasm_bindgen::prelude::*;\n"@
    } else {
        Seq::empty()
    }
}

/// The texts a module's rendering is made of: those of its types, and
/// those of its children, recursively.
pub struct ModWitness {
    pub ts: Seq<String>,
    pub children: Seq<ModWitness>,
    pub child_texts: Seq<Seq<char>>,
}

/// `text` renders the module `m` as the witness `w` records: its header,
/// the items of each of its types in order, then each child module, then
/// the closing brace.
pub open spec fn mod_text_by(table: &TypeTable, m: crate::modtree::ModDef, w: ModWitness, text: Seq<char>) -> bool
    decreases m, 0nat,
{
    &&& w.ts.len() == m.types@.len()
    &&& forall|i: int| 0 <= i < w.ts.len() ==> #[trigger] type_text_ok(table, m.types@[i], w.ts[i])
    &&& children_by(table, m.children@, w.children, w.child_texts)
    &&& text == mod_header(crate::ident::render_view(m.name@), m.types@.len() > 0) + join(
        strings_view(w.ts),
        Seq::empty(),
    ) + join(w.child_texts, Seq::empty()) + "}\n"@
}

/// Each of `cs` renders the module at the same position of `ms`, as the
/// witness at that position of `ws` records.
pub open spec fn children_by(
    table: &TypeTable,
    ms: Seq<crate::modtree::ModDef>,
    ws: Seq<ModWitness>,
    cs: Seq<Seq<char>>,
) -> bool
    decreases ms, 1nat,
{
    &&& ms.len() == cs.len()
    &&& ms.len() == ws.len()
    &&& ms.len() > 0 ==> children_by(table, ms.drop_last(), ws.drop_last(), cs.drop_last()) && mod_text_by(
        table,
        ms.last(),
        ws.last(),
        cs.last(),
    )
}

/// `text` renders the module `m`: its header, the items of each of its
/// types, each child module, and the closing brace.
pub open spec fn mod_text_ok(table: &TypeTable, m: crate::modtree::ModDef, text: Seq<char>) -> bool {
    exists|w: ModWitness| #[trigger] mod_text_by(table, m, w, text)
}

/// Renders a module and everything below it.
pub fn render_mod(table: &TypeTable, m: &crate::modtree::ModDef) -> (r: String)
    requires
        table.wf(),
        table.types@.len() < usize::MAX,
        emittable(table),
    ensures
        mod_text_ok(table, *m, r@),
{
    let (r, w) = render_mod_by(table, m);
    proof {
        assert(mod_text_by(table, *m, w@, r@));
    }
    r
}

fn render_mod_by(table: &TypeTable, m: &crate::modtree::ModDef) -> (r: (String, Ghost<ModWitness>))
    requires
        table.wf(),
        table.types@.len() < usize::MAX,
        emittable(table),
    ensures
        mod_text_by(table, *m, r.1@, r.0@),
    decreases m,
{
    let mut ts: Vec<String> = Vec::new();
    let mut i: usize = 0;
    while i < m.types.len()
        invariant
            table.wf(),
            table.types@.len() < usize::MAX,
            emittable(table),
            i <= m.types@.len(),
            ts@.len() == i,
            forall|k: int| 0 <= k < i ==> #[trigger] type_text_ok(table, m.types@[k], ts@[k]),
        decreases m.types@.len() - i,
    {
        let t = m.types[i];
        let ghost old_ts = ts@;
        if t >= table.types.len() {
            let e = empty_text();
            ts.push(e);
        } else {
            let text = emit_type(table, t);
            ts.push(text);
        }
        assert forall|k: int| 0 <= k < i + 1 implies #[trigger] type_text_ok(table, m.types@[k], ts@[k]) by {
            if k < i {
                assert(ts@[k] == old_ts[k]);
                assert(type_text_ok(table, m.types@[k], old_ts[k]));
            }
        }
        i += 1;
    }
    let mut cs: Vec<String> = Vec::new();
    let ghost mut ws: Seq<ModWitness> = Seq::empty();
    let mut k: usize = 0;
    while k < m.children.len()
        invariant
            table.wf(),
            table.types@.len() < usize::MAX,
            emittable(table),
            k <= m.children@.len(),
            children_by(table, m.children@.subrange(0, k as int), ws, strings_view(cs@)),
        decreases m.children@.len() - k,
    {
        let (text, cw) = render_mod_by(table, &m.children[k]);
        let ghost before = strings_view(cs@);
        let ghost wb = ws;
        let ghost tv = text@;
        cs.push(text);
        proof {
            ws = ws.push(cw@);
        }
        assert(strings_view(cs@) =~= before.push(tv));
        assert(m.children@.subrange(0, k + 1).drop_last() =~= m.children@.subrange(0, k as int));
        assert(strings_view(cs@).drop_last() =~= before);
        assert(ws.drop_last() =~= wb);
        k += 1;
    }
    assert(m.children@.subrange(0, k as int) =~= m.children@);
    proof {
        reveal_strlit("");
    }
    assert(""@ =~= Seq::<char>::empty());
    let tj = join_strings(&ts, "");
    let cj = join_strings(&cs, "");
    let name = m.name.render();
    let mut out: Vec<char> = Vec::new();
    push_str(&mut out, "#[cfg(target_arch = \"wasm32\")]\npub mod ");
    push_str(&mut out, name.as_str());
    push_str(&mut out, " {\n");
    let ghost head = out@;
    if m.types.len() > 0 {
        push_str(&mut out, "use wasm_bindgen::prelude::*;\n");
    } else {
        assert(out@ =~= head + Seq::<char>::empty());
    }
    push_str(&mut out, tj.as_str());
    push_str(&mut out, cj.as_str());
    push_str(&mut out, "}\n");
    let r = string_of(&out);
    let ghost w = ModWitness { ts: ts@, children: ws, child_texts: strings_view(cs@) };
    assert(r@ =~= mod_header(crate::ident::render_view(m.name@), m.types@.len() > 0) + join(
        strings_view(ts@),
        Seq::empty(),
    ) + join(strings_view(cs@), Seq::empty()) + "}\n"@);
    assert(mod_text_by(table, *m, w, r@));
    (r, Ghost(w))
}


/// `m` is the frozen module tree of the table: every type sits in its
/// file's module and, for a qualified name, also in its namespace's; no
/// module holds a type elsewhere, and sibling modules have distinct names.
pub open spec fn mod_built_from(table: &TypeTable, m: crate::modtree::ModDef) -> bool {
    exists|tree: crate::modtree::MutModDef|
        tree.wf() && crate::modtree::holds_all(table, &tree, table.files@.len() as int)
            && crate::modtree::holds_only(table, &tree) && #[trigger] crate::modtree::frozen_as(&tree, 0, m)
}

/// `text` renders the frozen module tree of the table from its root.
pub open spec fn is_generated(table: &TypeTable, text: Seq<char>) -> bool {
    exists|m: crate::modtree::ModDef| mod_built_from(table, m) && #[trigger] mod_text_ok(table, m, text)
}

/// The whole output for a table: its module tree, rendered from the root;
/// the error of the first type that cannot stand as a named type where
/// there is one.
pub fn generate(table: &TypeTable) -> (r: Result<String, EmitError>)
    requires
        table.wf(),
        table.types@.len() < usize::MAX,
    ensures
        r is Ok <==> emittable(table),
        match r {
            Ok(text) => is_generated(table, text@),
            Err(e) => first_unemittable_spec(table, e),
        },
{
    match first_unemittable(table) {
        Some(e) => Err(e),
        None => Ok(render_table(table)),
    }
}

fn render_table(table: &TypeTable) -> (text: String)
    requires
        table.wf(),
        table.types@.len() < usize::MAX,
        emittable(table),
    ensures
        is_generated(table, text@),
{
    let tree = crate::modtree::build_mod_tree(table);
    let m = tree.to_mod_def(0);
    assert(mod_built_from(table, m));
    let text = render_mod(table, &m);
    assert(mod_built_from(table, m) && mod_text_ok(table, m, text@));
    text
}

}
