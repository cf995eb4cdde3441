//! Interfaces: the recursive field set through `extends`, and the struct
//! that mirrors an interface.
use crate::ident::{Identifier, sanitize, snake_of, string_of, strings_view, to_snake_case_ident, to_unique_ident};
use crate::ir::{Interface, TypeIdent, TypeInfo, TypeParamConfig, TypeRef, TypeTable};
use crate::project::{Position, push_str, push_text, spec_text};
use crate::subst::{Env, TypeEnv, apply_type_params, bind_params, env_lookup, push_text_in, spec_text_in};
use crate::resolve::{Resolved, SerializationType, resolve_target_type, serialization_type, spec_resolve, spec_serialization_type, table_fuel};
use vstd::prelude::*;

verus! {

/// A field: its JS name, its type, and the environment that binds the
/// type parameters of the interface that declares it.
pub struct FieldRef<'a> {
    pub name: String,
    pub typ: &'a TypeRef,
    pub env: TypeEnv,
}

/// A field as plain values: name, type, environment.
pub type FieldV = (Seq<char>, TypeRef, Env);

pub open spec fn field_view(f: FieldRef) -> FieldV {
    (f.name@, *f.typ, f.env@)
}

pub open spec fn fields_view(fs: Seq<FieldRef>) -> Seq<FieldV> {
    fs.map_values(|f: FieldRef| field_view(f))
}

pub open spec fn has_name(fs: Seq<FieldV>, n: Seq<char>) -> bool {
    exists|i: int| 0 <= i < fs.len() && fs[i].0 == n
}

/// `acc` followed by the entries of `more` whose names it does not hold yet,
/// in order.
pub open spec fn merge_fields(acc: Seq<FieldV>, more: Seq<FieldV>) -> Seq<FieldV>
    decreases more.len(),
{
    if more.len() == 0 {
        acc
    } else {
        let m = merge_fields(acc, more.drop_last());
        if has_name(m, more.last().0) {
            m
        } else {
            m.push(more.last())
        }
    }
}

/// The interface that a reference resolves to, if any.
pub open spec fn resolved_interface(table: &TypeTable, r: TypeRef) -> Option<Interface> {
    match spec_resolve(table, &r) {
        Some(Resolved::At(i)) => if i < table.types@.len() {
            match table.types@[i as int].info {
                TypeInfo::Interface(x) => Some(x),
                _ => None,
            }
        } else {
            None
        },
        _ => None,
    }
}

/// The fields of an interface and, after them, those of the interfaces it
/// extends, transitively; a name already present keeps its most derived
/// definition.
pub open spec fn spec_recursive_fields(table: &TypeTable, iface: Interface, env: Env, fuel: nat) -> Seq<FieldV>
    decreases fuel, 0nat,
{
    let own = own_view(iface, env);
    if fuel == 0 {
        own
    } else {
        super_fields(table, own, iface.extends@, env, (fuel - 1) as nat)
    }
}

/// The fields an interface declares itself, under `env`.
pub open spec fn own_view(iface: Interface, env: Env) -> Seq<FieldV> {
    iface.fields@.map_values(|f: (String, TypeRef)| (f.0@, f.1, env))
}

/// `acc` merged with the recursive fields of each interface that `bases`
/// resolve to, in order, each under `env` extended with its type
/// parameters bound to the base's type arguments.
pub open spec fn super_fields(
    table: &TypeTable,
    acc: Seq<FieldV>,
    bases: Seq<TypeRef>,
    env: Env,
    fuel: nat,
) -> Seq<FieldV>
    decreases fuel, bases.len(),
{
    if bases.len() == 0 {
        acc
    } else {
        let m = super_fields(table, acc, bases.drop_last(), env, fuel);
        let b = bases.last();
        match resolved_interface(table, b) {
            Some(x) => merge_fields(
                m,
                spec_recursive_fields(table, x, bind_params(table, env, x.type_params@, b.type_params@), fuel),
            ),
            None => m,
        }
    }
}

fn name_in(fs: &Vec<FieldRef>, n: &String) -> (r: bool)
    ensures
        r == has_name(fields_view(fs@), n@),
{
    let mut i: usize = 0;
    while i < fs.len()
        invariant
            i <= fs@.len(),
            forall|j: int| 0 <= j < i ==> fs@[j].name@ != n@,
        decreases fs@.len() - i,
    {
        if fs[i].name == *n {
            assert(fields_view(fs@)[i as int].0 == n@);
            return true;
        }
        i += 1;
    }
    proof {
        if has_name(fields_view(fs@), n@) {
            let j = choose|j: int| 0 <= j < fields_view(fs@).len() && fields_view(fs@)[j].0 == n@;
            assert(fs@[j].name@ == n@);
        }
    }
    false
}

impl<'a> FieldRef<'a> {
    pub fn copy(&self) -> (r: FieldRef<'a>)
        ensures
            field_view(r) == field_view(*self),
    {
        FieldRef { name: self.name.clone(), typ: self.typ, env: self.env.copy() }
    }
}

pub fn merge_into<'a>(acc: &mut Vec<FieldRef<'a>>, more: &Vec<FieldRef<'a>>)
    ensures
        fields_view(final(acc)@) == merge_fields(fields_view(old(acc)@), fields_view(more@)),
{
    let ghost start = fields_view(acc@);
    let ghost mv = fields_view(more@);
    let mut i: usize = 0;
    assert(mv.subrange(0, 0).len() == 0);
    while i < more.len()
        invariant
            i <= more@.len(),
            mv == fields_view(more@),
            fields_view(acc@) == merge_fields(start, mv.subrange(0, i as int)),
        decreases more@.len() - i,
    {
        let ghost sub = mv.subrange(0, i + 1);
        assert(sub.drop_last() =~= mv.subrange(0, i as int));
        assert(sub.last() == field_view(more@[i as int]));
        if !name_in(acc, &more[i].name) {
            let ghost before = acc@;
            acc.push(more[i].copy());
            assert(fields_view(acc@) =~= fields_view(before).push(field_view(more@[i as int])));
        }
        i += 1;
    }
    assert(mv.subrange(0, more@.len() as int) =~= mv);
}

fn own_fields<'a>(iface: &'a Interface, env: &TypeEnv) -> (r: Vec<FieldRef<'a>>)
    ensures
        fields_view(r@) == own_view(*iface, env@),
{
    let mut r: Vec<FieldRef<'a>> = Vec::new();
    let mut i: usize = 0;
    while i < iface.fields.len()
        invariant
            i <= iface.fields@.len(),
            fields_view(r@) == own_view(*iface, env@).subrange(0, i as int),
        decreases iface.fields@.len() - i,
    {
        let ghost before = r@;
        r.push(FieldRef { name: iface.fields[i].0.clone(), typ: &iface.fields[i].1, env: env.copy() });
        assert(fields_view(r@) =~= fields_view(before).push(field_view(r@.last())));
        assert(own_view(*iface, env@).subrange(0, i + 1) =~= own_view(*iface, env@).subrange(0, i as int).push((iface.fields@[i as int].0@, iface.fields@[i as int].1, env@)));
        i += 1;
    }
    assert(own_view(*iface, env@).subrange(0, i as int) =~= own_view(*iface, env@));
    r
}

pub fn interface_of<'a>(table: &'a TypeTable, r: &TypeRef) -> (res: Option<&'a Interface>)
    ensures
        match res {
            Some(x) => resolved_interface(table, *r) == Some(*x),
            None => resolved_interface(table, *r) is None,
        },
{
    match resolve_target_type(table, r) {
        Some(Resolved::At(i)) => {
            if i < table.types.len() {
                match &table.types[i].info {
                    TypeInfo::Interface(x) => Some(x),
                    _ => None,
                }
            } else {
                None
            }
        },
        _ => None,
    }
}

fn recursive_fields_fuel<'a>(table: &'a TypeTable, iface: &'a Interface, env: &TypeEnv, fuel: usize) -> (r: Vec<FieldRef<'a>>)
    ensures
        fields_view(r@) == spec_recursive_fields(table, *iface, env@, fuel as nat),
    decreases fuel, 1nat,
{
    let own = own_fields(iface, env);
    if fuel == 0 {
        return own;
    }
    super_fields_fuel(table, own, &iface.extends, env, fuel - 1)
}

fn super_fields_fuel<'a>(table: &'a TypeTable, acc: Vec<FieldRef<'a>>, bases: &Vec<TypeRef>, env: &TypeEnv, fuel: usize) -> (r: Vec<FieldRef<'a>>)
    ensures
        fields_view(r@) == super_fields(table, fields_view(acc@), bases@, env@, fuel as nat),
    decreases fuel, 2nat,
{
    let ghost start = fields_view(acc@);
    let mut acc = acc;
    let mut i: usize = 0;
    while i < bases.len()
        invariant
            i <= bases@.len(),
            fields_view(acc@) == super_fields(table, start, bases@.subrange(0, i as int), env@, fuel as nat),
        decreases bases@.len() - i,
    {
        let ghost sub = bases@.subrange(0, i + 1);
        assert(sub.drop_last() =~= bases@.subrange(0, i as int));
        match interface_of(table, &bases[i]) {
            Some(x) => {
                let inner = apply_type_params(table, env, &x.type_params, &bases[i].type_params);
                let more = recursive_fields_fuel(table, x, &inner, fuel);
                merge_into(&mut acc, &more);
            },
            None => {},
        }
        i += 1;
    }
    assert(bases@.subrange(0, bases@.len() as int) =~= bases@);
    acc
}

/// The recursive field set of an interface, with the type parameters of
/// each inherited interface bound to the arguments it is extended with.
pub fn get_recursive_fields<'a>(table: &'a TypeTable, iface: &'a Interface) -> (r: Vec<FieldRef<'a>>)
    requires
        table.types@.len() < usize::MAX,
    ensures
        fields_view(r@) == spec_recursive_fields(table, *iface, Seq::empty(), table_fuel(table)),
{
    let env = TypeEnv::empty();
    get_recursive_fields_with_type_params(table, iface, &env)
}

/// The recursive field set of an interface whose own type parameters are
/// bound by `env`.
pub fn get_recursive_fields_with_type_params<'a>(table: &'a TypeTable, iface: &'a Interface, env: &TypeEnv) -> (r: Vec<FieldRef<'a>>)
    requires
        table.types@.len() < usize::MAX,
    ensures
        fields_view(r@) == spec_recursive_fields(table, *iface, env@, table_fuel(table)),
{
    recursive_fields_fuel(table, iface, env, table.types.len() + 1)
}


/// A field of the struct that mirrors an interface.
pub struct StructField {
    /// The JS name, kept by a rename attribute.
    pub js_name: String,
    pub rust_name: String,
    /// The owned type of the field.
    pub typ: String,
    /// The custom serializer of a callable field.
    pub serializer: Option<String>,
    /// The custom deserializer of a callable field.
    pub deserializer: Option<String>,
    /// The deserialization bound of a field whose type is a type
    /// parameter.
    pub bound: Option<String>,
}

/// The struct that mirrors an interface.
pub struct StructDef {
    pub name: String,
    /// The type parameters in angle brackets, or nothing.
    pub generics: String,
    pub fields: Vec<StructField>,
    /// The flattened map of an index signature.
    pub extra_fields: Option<ExtraFields>,
}

/// The field that collects what an index signature admits.
pub struct ExtraFields {
    pub name: String,
    /// The type of each value.
    pub value_type: String,
}

pub open spec fn field_rust_name(js: Seq<char>) -> Seq<char> {
    sanitize(snake_of(js))
}

/// The type parameter that a reference names, if it names one of `names`.
pub open spec fn param_named(names: Seq<Seq<char>>, t: TypeRef) -> Option<Seq<char>> {
    match t.referent {
        TypeIdent::LocalName(s) => if names.contains(s@) {
            Some(s@)
        } else {
            None
        },
        _ => None,
    }
}

/// The bound that deserializing a field of type parameter `n` needs.
pub open spec fn bound_text(n: Seq<char>) -> Seq<char> {
    n + ": Clone + serde::Serialize + serde::Deserialize<'de>"@
}

/// The type parameter of the struct that a field's type stands for: a
/// parameter the field's environment binds to one of `names`, or else one
/// of `names` itself.
pub open spec fn field_param(names: Seq<Seq<char>>, f: FieldV) -> Option<Seq<char>> {
    match f.1.referent {
        TypeIdent::LocalName(s) => match env_lookup(f.2, s@) {
            Some(t) => if names.contains(t) {
                Some(t)
            } else {
                None
            },
            None => param_named(names, f.1),
        },
        _ => None,
    }
}

/// Type parameters in angle brackets, separated by `, `; nothing for none.
pub open spec fn generics_text(names: Seq<Seq<char>>) -> Seq<char> {
    if names.len() == 0 {
        Seq::empty()
    } else {
        "<"@ + crate::ident::join(names, ", "@) + ">"@
    }
}

pub open spec fn type_param_names(ps: Seq<TypeParamConfig>) -> Seq<Seq<char>> {
    ps.map_values(|p: TypeParamConfig| p.name@)
}

/// The struct field for a recursive field, in a struct with the type
/// parameters `names`.
pub open spec fn is_field_for(table: &TypeTable, names: Seq<Seq<char>>, f: FieldV, d: StructField) -> bool {
    let rn = field_rust_name(f.0);
    let callable = spec_serialization_type(table, &f.1) == SerializationType::Fn;
    &&& (d.bound is Some <==> field_param(names, f) is Some)
    &&& (d.bound is Some ==> d.bound->0@ == bound_text(field_param(names, f)->0))
    &&& d.js_name@ == f.0
    &&& d.rust_name@ == rn
    &&& d.typ@ == spec_text_in(table, f.2, f.1, Position::Owned, crate::funcs::depth())
    &&& d.serializer is Some == callable
    &&& d.deserializer is Some == callable
    &&& (callable ==> d.serializer->0@ == "__tsb__serialize_"@ + rn)
    &&& (callable ==> d.deserializer->0@ == "__tsb__deserialize_"@ + rn)
}

pub open spec fn field_names_of(fs: Seq<FieldV>) -> Seq<Seq<char>> {
    fs.map_values(|f: FieldV| f.0)
}

pub open spec fn extra_fields_name() -> Seq<char> {
    "extra_fields"@
}

/// `d` mirrors `iface` named `js_name`: one field per recursive field, in
/// order, and the map of extra fields exactly when there is an index
/// signature, under the first name the fields leave free.
pub open spec fn is_struct_of(table: &TypeTable, js_name: Seq<char>, iface: Interface, d: StructDef) -> bool {
    is_struct_for(
        table,
        js_name,
        type_param_names(iface.type_params@),
        spec_recursive_fields(table, iface, Seq::empty(), table_fuel(table)),
        match iface.indexer {
            Some(x) => Some(x.value_type),
            None => None,
        },
        d,
    )
}

/// `d` is the struct named after `js_name` with one field per entry of
/// `rec`, in order, and the map of extra fields exactly when there is an
/// index signature of value type `indexer`, under the first name the
/// fields leave free.
pub open spec fn is_struct_for(
    table: &TypeTable,
    js_name: Seq<char>,
    names: Seq<Seq<char>>,
    rec: Seq<FieldV>,
    indexer: Option<TypeRef>,
    d: StructDef,
) -> bool {
    &&& d.name@ == sanitize(crate::ident::camel_of(js_name))
    &&& d.generics@ == generics_text(names)
    &&& d.fields@.len() == rec.len()
    &&& forall|i: int| 0 <= i < rec.len() ==> is_field_for(table, names, rec[i], #[trigger] d.fields@[i])
    &&& (d.extra_fields is Some <==> indexer is Some)
    &&& (d.extra_fields is Some ==> {
        &&& exists|n: Seq<char>|
            crate::ident::is_first_free(extra_fields_name(), field_names_of(rec), n) && d.extra_fields->0.name@
                == sanitize(n)
        &&& d.extra_fields->0.value_type@ == spec_text(
            table,
            indexer->0,
            Position::Plain,
            crate::funcs::depth(),
        )
    })
}

fn param_named_of(names: &Vec<String>, t: &TypeRef) -> (r: Option<String>)
    ensures
        match r {
            Some(n) => param_named(strings_view(names@), *t) == Some(n@),
            None => param_named(strings_view(names@), *t) is None,
        },
{
    match &t.referent {
        TypeIdent::LocalName(s) => {
            let mut i: usize = 0;
            while i < names.len()
                invariant
                    t.referent == TypeIdent::LocalName(*s),
                    i <= names@.len(),
                    forall|j: int| 0 <= j < i ==> names@[j]@ != s@,
                decreases names@.len() - i,
            {
                if names[i] == *s {
                    assert(strings_view(names@)[i as int] == s@);
                    assert(strings_view(names@).contains(s@));
                    let r = s.clone();
                    assert(param_named(strings_view(names@), *t) == Some(r@));
                    return Some(r);
                }
                i += 1;
            }
            proof {
                if strings_view(names@).contains(s@) {
                    let j = choose|j: int| 0 <= j < strings_view(names@).len() && strings_view(names@)[j] == s@;
                    assert(names@[j]@ == s@);
                }
            }
            None
        },
        _ => None,
    }
}

pub fn string_in(names: &Vec<String>, t: &String) -> (r: bool)
    ensures
        r == strings_view(names@).contains(t@),
{
    let mut i: usize = 0;
    while i < names.len()
        invariant
            i <= names@.len(),
            forall|j: int| 0 <= j < i ==> names@[j]@ != t@,
        decreases names@.len() - i,
    {
        if names[i] == *t {
            assert(strings_view(names@)[i as int] == t@);
            return true;
        }
        i += 1;
    }
    proof {
        if strings_view(names@).contains(t@) {
            let j = choose|j: int| 0 <= j < strings_view(names@).len() && strings_view(names@)[j] == t@;
            assert(names@[j]@ == t@);
        }
    }
    false
}

fn field_param_of(names: &Vec<String>, f: &FieldRef) -> (r: Option<String>)
    ensures
        match r {
            Some(n) => field_param(strings_view(names@), field_view(*f)) == Some(n@),
            None => field_param(strings_view(names@), field_view(*f)) is None,
        },
{
    match &f.typ.referent {
        TypeIdent::LocalName(s) => match f.env.lookup(s) {
            Some(t) => {
                if string_in(names, &t) {
                    Some(t)
                } else {
                    None
                }
            },
            None => param_named_of(names, f.typ),
        },
        _ => None,
    }
}

pub fn generics_string(names: &Vec<String>) -> (r: String)
    ensures
        r@ == generics_text(strings_view(names@)),
{
    let mut t: Vec<char> = Vec::new();
    if names.len() > 0 {
        push_str(&mut t, "<");
        let j = crate::ident::join_strings(names, ", ");
        push_str(&mut t, j.as_str());
        push_str(&mut t, ">");
    }
    let r = string_of(&t);
    assert(r@ =~= generics_text(strings_view(names@)));
    r
}

fn struct_field(table: &TypeTable, names: &Vec<String>, f: &FieldRef) -> (d: StructField)
    ensures
        is_field_for(table, strings_view(names@), field_view(*f), d),
{
    let bound = match field_param_of(names, f) {
        Some(n) => {
            let mut b: Vec<char> = Vec::new();
            push_str(&mut b, n.as_str());
            push_str(&mut b, ": Clone + serde::Serialize + serde::Deserialize<'de>");
            Some(string_of(&b))
        },
        None => None,
    };
    let id = to_snake_case_ident(f.name.as_str());
    let rust_name = id.render();
    assert(rust_name@ =~= field_rust_name(f.name@));
    let mut t: Vec<char> = Vec::new();
    push_text_in(&mut t, table, &f.env, f.typ, Position::Owned, usize::MAX);
    let callable = serialization_type(table, f.typ) == SerializationType::Fn;
    let (serializer, deserializer) = if callable {
        let mut a: Vec<char> = Vec::new();
        push_str(&mut a, "__tsb__serialize_");
        push_str(&mut a, rust_name.as_str());
        let mut b: Vec<char> = Vec::new();
        push_str(&mut b, "__tsb__deserialize_");
        push_str(&mut b, rust_name.as_str());
        (Some(string_of(&a)), Some(string_of(&b)))
    } else {
        (None, None)
    };
    StructField { js_name: f.name.clone(), rust_name, typ: string_of(&t), serializer, deserializer, bound }
}

/// The struct that mirrors the interface `iface` named `js_name`.
pub fn interface_struct(table: &TypeTable, js_name: &str, iface: &Interface) -> (r: StructDef)
    requires
        table.types@.len() < usize::MAX,
    ensures
        is_struct_of(table, js_name@, *iface, r),
{
    let rec = get_recursive_fields(table, iface);
    let indexer = match &iface.indexer {
        Some(ix) => Some(&ix.value_type),
        None => None,
    };
    let params = type_param_strings(&iface.type_params);
    struct_from_fields(table, js_name, &params, &rec, indexer)
}

/// The names of type parameters.
pub fn type_param_strings(ps: &Vec<TypeParamConfig>) -> (r: Vec<String>)
    ensures
        strings_view(r@) == type_param_names(ps@),
{
    let mut r: Vec<String> = Vec::new();
    let mut i: usize = 0;
    while i < ps.len()
        invariant
            i <= ps@.len(),
            strings_view(r@) == type_param_names(ps@.subrange(0, i as int)),
        decreases ps@.len() - i,
    {
        let ghost before = strings_view(r@);
        r.push(ps[i].name.clone());
        assert(strings_view(r@) =~= before.push(ps@[i as int].name@));
        assert(type_param_names(ps@.subrange(0, i + 1)) =~= type_param_names(ps@.subrange(0, i as int)).push(ps@[i as int].name@));
        i += 1;
    }
    assert(ps@.subrange(0, i as int) =~= ps@);
    r
}

/// The struct named after `js_name` with the fields `rec`, and the extra
/// fields of an index signature whose value type is `indexer`.
pub fn struct_from_fields(table: &TypeTable, js_name: &str, params: &Vec<String>, rec: &Vec<FieldRef>, indexer: Option<&TypeRef>) -> (r: StructDef)
    ensures
        is_struct_for(
            table,
            js_name@,
            strings_view(params@),
            fields_view(rec@),
            match indexer {
                Some(t) => Some(*t),
                None => None,
            },
            r,
        ),
{
    let ghost rv = fields_view(rec@);
    let mut fields: Vec<StructField> = Vec::new();
    let mut names: Vec<String> = Vec::new();
    let mut i: usize = 0;
    while i < rec.len()
        invariant
            i <= rec@.len(),
            rv == fields_view(rec@),
            fields@.len() == i,
            forall|j: int| 0 <= j < i ==> is_field_for(table, strings_view(params@), rv[j], #[trigger] fields@[j]),
            strings_view(names@) == field_names_of(rv).subrange(0, i as int),
        decreases rec@.len() - i,
    {
        let d = struct_field(table, params, &rec[i]);
        fields.push(d);
        let ghost before = names@;
        names.push(rec[i].name.clone());
        assert(strings_view(names@) =~= strings_view(before).push(rv[i as int].0));
        assert(field_names_of(rv).subrange(0, i + 1) =~= field_names_of(rv).subrange(0, i as int).push(rv[i as int].0));
        i += 1;
    }
    assert(field_names_of(rv).subrange(0, i as int) =~= field_names_of(rv));
    let name = crate::ident::to_camel_case_ident(js_name).render();
    assert(name@ =~= sanitize(crate::ident::camel_of(js_name@)));
    let extra_fields = match indexer {
        Some(vt_ref) => {
            let desired = string_of(&vec!['e', 'x', 't', 'r', 'a', '_', 'f', 'i', 'e', 'l', 'd', 's']);
            proof {
                reveal_strlit("extra_fields");
                assert(desired@ =~= extra_fields_name());
            }
            let id = to_unique_ident(desired, &names);
            let extra_name = id.render();
            let mut vt: Vec<char> = Vec::new();
            push_text(&mut vt, table, vt_ref, Position::Plain, usize::MAX);
            proof {
                let n = choose|n: Seq<char>| crate::ident::is_first_free(extra_fields_name(), strings_view(names@), n) && id@ == crate::ident::ident_view(n);
                assert(extra_name@ =~= sanitize(n));
            }
            Some(ExtraFields { name: extra_name, value_type: string_of(&vt) })
        },
        None => None,
    };
    StructDef { name, generics: generics_string(params), fields, extra_fields }
}


/// The public fields of a struct: one per field, then the extra fields.
pub open spec fn public_fields(d: StructDef) -> Seq<Seq<char>> {
    d.fields@.map_values(|f: StructField| f.rust_name@) + match d.extra_fields {
        Some(x) => seq![x.name@],
        None => Seq::empty(),
    }
}

/// The struct mirroring an interface has one public field per recursive
/// field of the interface, then the extra fields exactly when the interface
/// has an index signature.
pub proof fn lemma_struct_fields(table: &TypeTable, js_name: Seq<char>, iface: Interface, d: StructDef)
    requires
        is_struct_of(table, js_name, iface, d),
    ensures
        ({
            let rec = spec_recursive_fields(table, iface, Seq::empty(), table_fuel(table));
            let own = field_names_of(rec).map_values(|n: Seq<char>| field_rust_name(n));
            &&& iface.indexer is None ==> public_fields(d) == own
            &&& iface.indexer is Some ==> public_fields(d) == own.push(d.extra_fields->0.name@)
            &&& iface.indexer is Some ==> exists|n: Seq<char>|
                crate::ident::is_first_free(extra_fields_name(), field_names_of(rec), n)
                    && d.extra_fields->0.name@ == sanitize(n)
        }),
{
    let rec = spec_recursive_fields(table, iface, Seq::empty(), table_fuel(table));
    let own = field_names_of(rec).map_values(|n: Seq<char>| field_rust_name(n));
    let fs = d.fields@.map_values(|f: StructField| f.rust_name@);
    assert forall|i: int| 0 <= i < rec.len() implies fs[i] == own[i] by {
        assert(is_field_for(table, type_param_names(iface.type_params@), rec[i], d.fields@[i]));
    }
    assert(fs =~= own);
    if iface.indexer is None {
        assert(public_fields(d) =~= own);
    } else {
        assert(public_fields(d) =~= own.push(d.extra_fields->0.name@));
    }
}

/// The names of a struct's custom serializers, in field order, then those
/// of its custom deserializers.
pub open spec fn adapter_names(fs: Seq<StructField>) -> Seq<Seq<char>> {
    serializer_names(fs) + deserializer_names(fs)
}

pub open spec fn serializer_names(fs: Seq<StructField>) -> Seq<Seq<char>>
    decreases fs.len(),
{
    if fs.len() == 0 {
        Seq::empty()
    } else {
        serializer_names(fs.drop_last()) + match fs.last().serializer {
            Some(n) => seq![n@],
            None => Seq::empty(),
        }
    }
}

pub open spec fn deserializer_names(fs: Seq<StructField>) -> Seq<Seq<char>>
    decreases fs.len(),
{
    if fs.len() == 0 {
        Seq::empty()
    } else {
        deserializer_names(fs.drop_last()) + match fs.last().deserializer {
            Some(n) => seq![n@],
            None => Seq::empty(),
        }
    }
}

/// An interface whose only field is callable gets exactly two adapters,
/// `__tsb__serialize_<field>` and `__tsb__deserialize_<field>`.
pub proof fn lemma_callable_field_adapters(table: &TypeTable, js_name: Seq<char>, iface: Interface, d: StructDef)
    requires
        is_struct_of(table, js_name, iface, d),
        iface.extends@.len() == 0,
        iface.fields@.len() == 1,
        spec_serialization_type(table, &iface.fields@[0].1) == SerializationType::Fn,
    ensures
        ({
            let rn = field_rust_name(iface.fields@[0].0@);
            adapter_names(d.fields@) == seq!["__tsb__serialize_"@ + rn, "__tsb__deserialize_"@ + rn]
        }),
{
    let rec = spec_recursive_fields(table, iface, Seq::empty(), table_fuel(table));
    let own = own_view(iface, Seq::empty());
    assert(super_fields(table, own, iface.extends@, Seq::empty(), (table_fuel(table) - 1) as nat) == own);
    assert(rec == own);
    assert(is_field_for(table, type_param_names(iface.type_params@), rec[0], d.fields@[0]));
    let fs = d.fields@;
    assert(fs.drop_last() =~= Seq::<StructField>::empty());
    assert(rec[0].1 == iface.fields@[0].1);
    assert(fs[0].serializer is Some);
    assert(fs[0].deserializer is Some);
    assert(fs.last() == fs[0]);
    assert(serializer_names(fs.drop_last()) == Seq::<Seq<char>>::empty());
    assert(deserializer_names(fs.drop_last()) == Seq::<Seq<char>>::empty());
    assert(serializer_names(fs) =~= seq![fs[0].serializer->0@]);
    assert(deserializer_names(fs) =~= seq![fs[0].deserializer->0@]);
}

}
