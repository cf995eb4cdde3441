//! The text of the emitted items: structs, unions, traits and their
//! implementations, from the models the other modules build.
use crate::iface::{ExtraFields, StructDef, StructField};
use crate::ident::{join, join_strings, string_of, strings_view};
use crate::project::{push_chars, push_str};
use crate::traits::{TraitDefn, TraitImpl};
use crate::union::UnionCase;
use vstd::prelude::*;

verus! {

/// A string made safe to stand between double quotes.
pub open spec fn escape(s: Seq<char>) -> Seq<char>
    decreases s.len(),
{
    if s.len() == 0 {
        s
    } else {
        let c = s.last();
        escape(s.drop_last()) + if c == '"' || c == '\\' {
            seq!['\\', c]
        } else {
            seq![c]
        }
    }
}

pub fn push_escaped(out: &mut Vec<char>, s: &String)
    ensures
        final(out)@ == old(out)@ + escape(s@),
{
    let cs = crate::ident::chars_of(s.as_str());
    let ghost start = out@;
    let mut i: usize = 0;
    while i < cs.len()
        invariant
            i <= cs@.len(),
            cs@ == s@,
            out@ == start + escape(cs@.subrange(0, i as int)),
        decreases cs@.len() - i,
    {
        let c = cs[i];
        if c == '"' || c == '\\' {
            out.push('\\');
        }
        out.push(c);
        assert(cs@.subrange(0, i + 1).drop_last() =~= cs@.subrange(0, i as int));
        assert(out@ =~= start + escape(cs@.subrange(0, i + 1)));
        i += 1;
    }
    assert(cs@.subrange(0, i as int) =~= cs@);
}

/// Each string with `pre` before it and `suf` after it.
pub open spec fn framed(v: Seq<Seq<char>>, pre: Seq<char>, suf: Seq<char>) -> Seq<Seq<char>> {
    v.map_values(|m: Seq<char>| pre + m + suf)
}

pub fn frame_all(v: &Vec<String>, pre: &str, suf: &str) -> (r: Vec<String>)
    ensures
        strings_view(r@) == framed(strings_view(v@), pre@, suf@),
{
    let mut r: Vec<String> = Vec::new();
    let mut i: usize = 0;
    while i < v.len()
        invariant
            i <= v@.len(),
            strings_view(r@) == framed(strings_view(v@.subrange(0, i as int)), pre@, suf@),
        decreases v@.len() - i,
    {
        let mut t: Vec<char> = Vec::new();
        push_str(&mut t, pre);
        push_str(&mut t, v[i].as_str());
        push_str(&mut t, suf);
        let ghost before = strings_view(r@);
        r.push(string_of(&t));
        assert(strings_view(r@) =~= before.push(pre@ + v@[i as int]@ + suf@));
        assert(framed(strings_view(v@.subrange(0, i + 1)), pre@, suf@) =~= framed(strings_view(v@.subrange(0, i as int)), pre@, suf@).push(pre@ + v@[i as int]@ + suf@));
        i += 1;
    }
    assert(v@.subrange(0, i as int) =~= v@);
    r
}

/// The deserialization bound of a field, inside its serde attribute.
pub open spec fn bound_attr(f: StructField) -> Seq<char> {
    match f.bound {
        Some(b) => ", bound(deserialize = \""@ + b@ + "\")"@,
        None => Seq::empty(),
    }
}

/// The custom serde adapters of a field of the struct named `owner`,
/// inside its serde attribute.
pub open spec fn adapter_attrs(owner: Seq<char>, f: StructField) -> Seq<char> {
    match (f.serializer, f.deserializer) {
        (Some(s), Some(d)) => ", serialize_with = \""@ + owner + "::"@ + s@ + "\", deserialize_with = \""@ + owner
            + "::"@ + d@ + "\""@,
        _ => Seq::empty(),
    }
}

/// The text of one struct field: its rename, its bound, its custom serde
/// adapters on the struct named `owner`, and the field itself.
pub open spec fn field_text(owner: Seq<char>, f: StructField) -> Seq<char> {
    "#[serde(rename = \""@ + escape(f.js_name@) + "\""@ + bound_attr(f) + adapter_attrs(owner, f) + ")]\npub "@
        + f.rust_name@ + ": "@ + f.typ@
}

pub open spec fn extra_text(x: ExtraFields) -> Seq<char> {
    "#[serde(flatten)]\npub "@ + x.name@ + ": std::collections::HashMap<String, "@ + x.value_type@ + ">"@
}

pub open spec fn field_texts(d: StructDef) -> Seq<Seq<char>> {
    d.fields@.map_values(|f: StructField| field_text(d.name@, f)) + match d.extra_fields {
        Some(x) => seq![extra_text(x)],
        None => Seq::empty(),
    }
}

/// The text of a struct.
pub open spec fn struct_text(d: StructDef) -> Seq<char> {
    "#[derive(Clone, serde::Serialize, serde::Deserialize)]\npub struct "@ + d.name@ + d.generics@ + " {\n"@ + join(
        field_texts(d),
        ",\n"@,
    ) + "\n}\n"@
}

fn push_bound_attr(t: &mut Vec<char>, f: &StructField)
    ensures
        final(t)@ == old(t)@ + bound_attr(*f),
{
    let ghost start = t@;
    match &f.bound {
        Some(b) => {
            push_str(t, ", bound(deserialize = \"");
            push_str(t, b.as_str());
            push_str(t, "\")");
        },
        None => {},
    }
    assert(t@ =~= start + bound_attr(*f));
}

fn push_adapter_attrs(t: &mut Vec<char>, owner: &String, f: &StructField)
    ensures
        final(t)@ == old(t)@ + adapter_attrs(owner@, *f),
{
    let ghost start = t@;
    match (&f.serializer, &f.deserializer) {
        (Some(s), Some(d)) => {
            push_str(t, ", serialize_with = \"");
            push_str(t, owner.as_str());
            push_str(t, "::");
            push_str(t, s.as_str());
            push_str(t, "\", deserialize_with = \"");
            push_str(t, owner.as_str());
            push_str(t, "::");
            push_str(t, d.as_str());
            push_str(t, "\"");
        },
        _ => {},
    }
    assert(t@ =~= start + adapter_attrs(owner@, *f));
}

fn field_string(owner: &String, f: &StructField) -> (r: String)
    ensures
        r@ == field_text(owner@, *f),
{
    let mut t: Vec<char> = Vec::new();
    push_str(&mut t, "#[serde(rename = \"");
    push_escaped(&mut t, &f.js_name);
    push_str(&mut t, "\"");
    push_bound_attr(&mut t, f);
    push_adapter_attrs(&mut t, owner, f);
    push_str(&mut t, ")]\npub ");
    push_str(&mut t, f.rust_name.as_str());
    push_str(&mut t, ": ");
    push_str(&mut t, f.typ.as_str());
    let r = string_of(&t);
    assert(r@ =~= field_text(owner@, *f));
    r
}

/// Renders a struct.
pub fn render_struct(d: &StructDef) -> (r: String)
    ensures
        r@ == struct_text(*d),
{
    let mut parts: Vec<String> = Vec::new();
    let mut i: usize = 0;
    while i < d.fields.len()
        invariant
            i <= d.fields@.len(),
            strings_view(parts@) == d.fields@.subrange(0, i as int).map_values(|f: StructField| field_text(d.name@, f)),
        decreases d.fields@.len() - i,
    {
        let ghost before = strings_view(parts@);
        parts.push(field_string(&d.name, &d.fields[i]));
        assert(strings_view(parts@) =~= before.push(field_text(d.name@, d.fields@[i as int])));
        assert(d.fields@.subrange(0, i + 1).map_values(|f: StructField| field_text(d.name@, f)) =~= d.fields@.subrange(0, i as int).map_values(|f: StructField| field_text(d.name@, f)).push(field_text(d.name@, d.fields@[i as int])));
        i += 1;
    }
    assert(d.fields@.subrange(0, i as int) =~= d.fields@);
    match &d.extra_fields {
        Some(x) => {
            let mut t: Vec<char> = Vec::new();
            push_str(&mut t, "#[serde(flatten)]\npub ");
            push_str(&mut t, x.name.as_str());
            push_str(&mut t, ": std::collections::HashMap<String, ");
            push_str(&mut t, x.value_type.as_str());
            push_str(&mut t, ">");
            let ghost before = strings_view(parts@);
            parts.push(string_of(&t));
            assert(strings_view(parts@) =~= before.push(extra_text(*x)));
        },
        None => {},
    }
    assert(strings_view(parts@) =~= field_texts(*d));
    let body = join_strings(&parts, ",\n");
    let mut t: Vec<char> = Vec::new();
    push_str(&mut t, "#[derive(Clone, serde::Serialize, serde::Deserialize)]\npub struct ");
    push_str(&mut t, d.name.as_str());
    push_str(&mut t, d.generics.as_str());
    push_str(&mut t, " {\n");
    push_str(&mut t, body.as_str());
    push_str(&mut t, "\n}\n");
    let r = string_of(&t);
    assert(r@ =~= struct_text(*d));
    r
}


/// The text of one union case.
pub open spec fn case_text(c: UnionCase) -> Seq<char> {
    if c.is_undefined {
        "#[serde(serialize_with = \"ts_bindgen_rt::serialize_undefined\", deserialize_with = \"ts_bindgen_rt::deserialize_undefined\")]\n"@
            + c.name@
    } else {
        match c.payload {
            Some(t) => c.name@ + "("@ + t@ + ")"@,
            None => c.name@,
        }
    }
}

/// The text of an untagged union named `name`.
pub open spec fn union_text(name: Seq<char>, cs: Seq<UnionCase>) -> Seq<char> {
    "#[derive(Clone, serde::Serialize, serde::Deserialize)]\n#[serde(untagged)]\npub enum "@ + name + " {\n"@
        + join(cs.map_values(|c: UnionCase| case_text(c)), ",\n"@) + "\n}\n"@
}

fn case_string(c: &UnionCase) -> (r: String)
    ensures
        r@ == case_text(*c),
{
    let mut t: Vec<char> = Vec::new();
    if c.is_undefined {
        push_str(&mut t, "#[serde(serialize_with = \"ts_bindgen_rt::serialize_undefined\", deserialize_with = \"ts_bindgen_rt::deserialize_undefined\")]\n");
        push_str(&mut t, c.name.as_str());
    } else {
        match &c.payload {
            Some(p) => {
                push_str(&mut t, c.name.as_str());
                push_str(&mut t, "(");
                push_str(&mut t, p.as_str());
                push_str(&mut t, ")");
            },
            None => push_str(&mut t, c.name.as_str()),
        }
    }
    let r = string_of(&t);
    assert(r@ =~= case_text(*c));
    r
}

/// Renders an untagged union.
pub fn render_union(name: &str, cs: &Vec<UnionCase>) -> (r: String)
    ensures
        r@ == union_text(name@, cs@),
{
    let mut parts: Vec<String> = Vec::new();
    let mut i: usize = 0;
    while i < cs.len()
        invariant
            i <= cs@.len(),
            strings_view(parts@) == cs@.subrange(0, i as int).map_values(|c: UnionCase| case_text(c)),
        decreases cs@.len() - i,
    {
        let ghost before = strings_view(parts@);
        parts.push(case_string(&cs[i]));
        assert(strings_view(parts@) =~= before.push(case_text(cs@[i as int])));
        assert(cs@.subrange(0, i + 1).map_values(|c: UnionCase| case_text(c)) =~= cs@.subrange(0, i as int).map_values(|c: UnionCase| case_text(c)).push(case_text(cs@[i as int])));
        i += 1;
    }
    assert(cs@.subrange(0, i as int) =~= cs@);
    let body = join_strings(&parts, ",\n");
    let mut t: Vec<char> = Vec::new();
    push_str(&mut t, "#[derive(Clone, serde::Serialize, serde::Deserialize)]\n#[serde(untagged)]\npub enum ");
    push_str(&mut t, name);
    push_str(&mut t, " {\n");
    push_str(&mut t, body.as_str());
    push_str(&mut t, "\n}\n");
    let r = string_of(&t);
    assert(r@ =~= union_text(name@, cs@));
    r
}

/// The methods of an implementation, each declaration with its body.
pub open spec fn method_texts(ms: Seq<Seq<char>>, bs: Seq<Seq<char>>) -> Seq<Seq<char>> {
    Seq::new(ms.len(), |i: int| ms[i] + " {\n"@ + bs[i] + "\n}\n"@)
}

/// The text of an implementation of a trait for the type `for_type` with
/// the type parameters `generics` (bound as `impl_generics`).
pub open spec fn impl_text(for_type: Seq<char>, generics: Seq<char>, impl_generics: Seq<char>, i: TraitImpl) -> Seq<char> {
    "impl"@ + impl_generics + " "@ + i.trait_name@ + " for "@ + for_type + generics + " {\n"@ + join(
        method_texts(strings_view(i.methods@), strings_view(i.bodies@)),
        Seq::empty(),
    ) + "}\n"@
}

/// The text of a trait and of its implementations for the type `for_type`.
pub open spec fn trait_text(for_type: Seq<char>, d: TraitDefn) -> Seq<char> {
    "trait "@ + d.name@ + d.generics@ + (if d.supers@.len() == 0 {
        Seq::empty()
    } else {
        ": "@ + join(strings_view(d.supers@), " + "@)
    }) + " {\n"@ + join(framed(strings_view(d.methods@), Seq::empty(), ";\n"@), Seq::empty()) + "}\n"@
        + join(
        d.impls@.map_values(|i: TraitImpl| impl_text(for_type, d.generics@, d.impl_generics@, i)),
        Seq::empty(),
    )
}

fn impl_string(for_type: &str, generics: &String, impl_generics: &String, i: &TraitImpl) -> (r: String)
    requires
        i.methods@.len() == i.bodies@.len(),
    ensures
        r@ == impl_text(for_type@, generics@, impl_generics@, *i),
{
    let ghost mt = method_texts(strings_view(i.methods@), strings_view(i.bodies@));
    let mut parts: Vec<String> = Vec::new();
    let mut k: usize = 0;
    while k < i.methods.len()
        invariant
            i.methods@.len() == i.bodies@.len(),
            k <= i.methods@.len(),
            mt == method_texts(strings_view(i.methods@), strings_view(i.bodies@)),
            strings_view(parts@) == mt.subrange(0, k as int),
        decreases i.methods@.len() - k,
    {
        let mut t: Vec<char> = Vec::new();
        push_str(&mut t, i.methods[k].as_str());
        push_str(&mut t, " {\n");
        push_str(&mut t, i.bodies[k].as_str());
        push_str(&mut t, "\n}\n");
        let ghost before = strings_view(parts@);
        parts.push(string_of(&t));
        assert(strings_view(parts@) =~= before.push(mt[k as int]));
        assert(mt.subrange(0, k + 1) =~= mt.subrange(0, k as int).push(mt[k as int]));
        k += 1;
    }
    assert(mt.subrange(0, k as int) =~= mt);
    proof {
        reveal_strlit("");
    }
    assert(""@ =~= Seq::<char>::empty());
    let body = join_strings(&parts, "");
    let mut t: Vec<char> = Vec::new();
    push_str(&mut t, "impl");
    push_str(&mut t, impl_generics.as_str());
    push_str(&mut t, " ");
    push_str(&mut t, i.trait_name.as_str());
    push_str(&mut t, " for ");
    push_str(&mut t, for_type);
    push_str(&mut t, generics.as_str());
    push_str(&mut t, " {\n");
    push_str(&mut t, body.as_str());
    push_str(&mut t, "}\n");
    let r = string_of(&t);
    assert(r@ =~= impl_text(for_type@, generics@, impl_generics@, *i));
    r
}

/// Renders a trait and its implementations for the type `for_type`.
pub fn render_trait(for_type: &str, d: &TraitDefn) -> (r: String)
    requires
        forall|k: int| 0 <= k < d.impls@.len() ==> (#[trigger] d.impls@[k]).methods@.len() == d.impls@[k].bodies@.len(),
    ensures
        r@ == trait_text(for_type@, *d),
{
    let mut t: Vec<char> = Vec::new();
    push_str(&mut t, "trait ");
    push_str(&mut t, d.name.as_str());
    push_str(&mut t, d.generics.as_str());
    if d.supers.len() > 0 {
        push_str(&mut t, ": ");
        let sup = join_strings(&d.supers, " + ");
        push_str(&mut t, sup.as_str());
    }
    push_str(&mut t, " {\n");
    proof {
        reveal_strlit("");
    }
    assert(""@ =~= Seq::<char>::empty());
    let decls = frame_all(&d.methods, "", ";\n");
    let dj = join_strings(&decls, "");
    push_str(&mut t, dj.as_str());
    push_str(&mut t, "}\n");
    let mut parts: Vec<String> = Vec::new();
    let mut k: usize = 0;
    while k < d.impls.len()
        invariant
            k <= d.impls@.len(),
            forall|q: int| 0 <= q < d.impls@.len() ==> (#[trigger] d.impls@[q]).methods@.len() == d.impls@[q].bodies@.len(),
            strings_view(parts@) == d.impls@.subrange(0, k as int).map_values(|i: TraitImpl| impl_text(for_type@, d.generics@, d.impl_generics@, i)),
        decreases d.impls@.len() - k,
    {
        let ghost before = strings_view(parts@);
        parts.push(impl_string(for_type, &d.generics, &d.impl_generics, &d.impls[k]));
        assert(strings_view(parts@) =~= before.push(impl_text(for_type@, d.generics@, d.impl_generics@, d.impls@[k as int])));
        assert(d.impls@.subrange(0, k + 1).map_values(|i: TraitImpl| impl_text(for_type@, d.generics@, d.impl_generics@, i)) =~= d.impls@.subrange(0, k as int).map_values(|i: TraitImpl| impl_text(for_type@, d.generics@, d.impl_generics@, i)).push(impl_text(for_type@, d.generics@, d.impl_generics@, d.impls@[k as int])));
        k += 1;
    }
    assert(d.impls@.subrange(0, k as int) =~= d.impls@);
    let ij = join_strings(&parts, "");
    push_str(&mut t, ij.as_str());
    let r = string_of(&t);
    assert(r@ =~= trait_text(for_type@, *d));
    r
}

}
