//! Traits: one per interface and class, inheriting the traits of its
//! super-types, with an implementation of every trait up the hierarchy.
use crate::funcs::{AccessType, Constructor, FnProto, PropertyAccessor, rust_fn_decl};
use crate::ident::{Identifier, camel_of, sanitize, snake_of, string_of, strings_view, to_snake_case_ident};
use crate::ir::{Class, Func, Interface, Member, TypeIdent, TypeInfo, TypeRef, TypeTable};
use crate::project::{name_text, push_name_text, push_str};
use crate::resolve::{resolve_target_type, Resolved, resolved_info, table_fuel};
use crate::subst::{Env, TypeEnv, apply_type_params, bind_params, push_text_in, spec_text_in};
use vstd::prelude::*;

verus! {

/// A member of a trait.
pub enum TraitMember<'a> {
    Constructor { name: Identifier, ctor: Constructor<'a> },
    Method { name: Identifier, method: &'a Func },
    Getter { name: Identifier, prop: PropertyAccessor<'a> },
    Setter { name: Identifier, prop: PropertyAccessor<'a> },
}

impl<'a> TraitMember<'a> {
    /// The member's name in the trait.
    pub fn name(&self) -> (r: &Identifier)
        ensures
            r == match self {
                TraitMember::Constructor { name, .. } => name,
                TraitMember::Method { name, .. } => name,
                TraitMember::Getter { name, .. } => name,
                TraitMember::Setter { name, .. } => name,
            },
    {
        match self {
            TraitMember::Constructor { name, .. } => name,
            TraitMember::Method { name, .. } => name,
            TraitMember::Getter { name, .. } => name,
            TraitMember::Setter { name, .. } => name,
        }
    }
}

impl<'a> TraitMember<'a> {
    /// The prototype the member is declared by.
    pub fn proto<'b>(&'b self) -> (p: FnProto<'b>)
        ensures
            match self {
                TraitMember::Constructor { ctor, .. } => p == FnProto::Ctor(ctor),
                TraitMember::Method { method, .. } => p == FnProto::Func(*method),
                TraitMember::Getter { prop, .. } => p == FnProto::Accessor(prop),
                TraitMember::Setter { prop, .. } => p == FnProto::Accessor(prop),
            },
    {
        match self {
            TraitMember::Constructor { ctor, .. } => FnProto::Ctor(ctor),
            TraitMember::Method { method, .. } => FnProto::Func(*method),
            TraitMember::Getter { prop, .. } => FnProto::Accessor(prop),
            TraitMember::Setter { prop, .. } => FnProto::Accessor(prop),
        }
    }
}

/// The declaration of a trait member: its prototype, callable from the
/// target language, under the member's name.
fn member_decl_string(table: &TypeTable, name: &Identifier, p: &FnProto) -> (r: String)
    ensures
        r@ == rust_fn_decl(table, *p, crate::ident::render_view(name@)),
{
    let name = name.render();
    let mut t: Vec<char> = Vec::new();
    p.push_rust_fn_decl(&mut t, table, name.as_str());
    string_of(&t)
}

/// A super-class or implemented interface, with the type that holds the
/// implementation of its members: an interface embeds its supers' members,
/// so for it that is the interface itself; a class does not, so for a
/// super-class and what lies above it, it is that super-class.
pub struct Super<'a> {
    pub item: &'a TypeRef,
    pub implementor: &'a TypeRef,
    /// The binding of `item`'s type parameters to the arguments it is
    /// reached with.
    pub env: TypeEnv,
}

/// The type parameters of an interface or class.
pub open spec fn info_type_params(info: TypeInfo) -> Seq<crate::ir::TypeParamConfig> {
    match info {
        TypeInfo::Interface(i) => i.type_params@,
        TypeInfo::Class(c) => c.type_params@,
        _ => Seq::empty(),
    }
}

/// The environment of the super-type `s` reached under `env`.
pub open spec fn super_env(table: &TypeTable, env: Env, s: TypeRef) -> Env {
    match resolved_info(table, &s) {
        Some(info) => bind_params(table, env, info_type_params(info), s.type_params@),
        None => env,
    }
}

/// The direct super-types of an interface or class: the interfaces it
/// extends; or its super-class, then the interfaces it implements.
pub open spec fn info_supers(info: TypeInfo) -> Seq<TypeRef> {
    match info {
        TypeInfo::Interface(i) => i.extends@,
        TypeInfo::Class(c) => match c.super_class {
            Some(s) => seq![s] + c.implements@,
            None => c.implements@,
        },
        _ => Seq::empty(),
    }
}

/// A class holds its own implementation; an interface's is denormalized
/// onto what implements it.
pub open spec fn contains_implementation(table: &TypeTable, r: TypeRef) -> bool {
    match resolved_info(table, &r) {
        Some(TypeInfo::Class(_)) => true,
        _ => false,
    }
}

/// Every super-type reachable from `supers`, depth first, each with its
/// implementor.
pub open spec fn spec_recursive_supers(
    table: &TypeTable,
    supers: Seq<TypeRef>,
    implementor: TypeRef,
    env: Env,
    fuel: nat,
) -> Seq<(TypeRef, TypeRef, Env)>
    decreases fuel, supers.len(),
{
    if supers.len() == 0 {
        Seq::empty()
    } else {
        let prev = spec_recursive_supers(table, supers.drop_last(), implementor, env, fuel);
        let s = supers.last();
        let imp = if contains_implementation(table, s) {
            s
        } else {
            implementor
        };
        let se = super_env(table, env, s);
        prev.push((s, imp, se)) + if fuel == 0 {
            Seq::empty()
        } else {
            match resolved_info(table, &s) {
                Some(info) => spec_recursive_supers(table, info_supers(info), imp, se, (fuel - 1) as nat),
                None => Seq::empty(),
            }
        }
    }
}

pub open spec fn supers_view(v: Seq<Super>) -> Seq<(TypeRef, TypeRef, Env)> {
    v.map_values(|s: Super| (*s.item, *s.implementor, s.env@))
}

fn super_env_of(table: &TypeTable, env: &TypeEnv, s: &TypeRef) -> (r: TypeEnv)
    ensures
        r@ == super_env(table, env@, *s),
{
    match info_of(table, s) {
        Some(TypeInfo::Interface(i)) => apply_type_params(table, env, &i.type_params, &s.type_params),
        Some(TypeInfo::Class(c)) => apply_type_params(table, env, &c.type_params, &s.type_params),
        Some(_) => {
            let r = env.copy();
            assert(r@ =~= super_env(table, env@, *s));
            r
        },
        None => env.copy(),
    }
}

fn info_of<'a>(table: &'a TypeTable, r: &TypeRef) -> (res: Option<&'a TypeInfo>)
    ensures
        match res {
            Some(v) => resolved_info(table, r) == Some(*v),
            None => resolved_info(table, r) is None,
        },
{
    match resolve_target_type(table, r) {
        Some(Resolved::At(i)) => {
            if i < table.types.len() {
                Some(&table.types[i].info)
            } else {
                None
            }
        },
        _ => None,
    }
}

/// The direct super-types of an interface or class, in order.
pub fn super_traits<'a>(info: &'a TypeInfo) -> (r: Vec<&'a TypeRef>)
    ensures
        r@.map_values(|t: &TypeRef| *t) == info_supers(*info),
{
    let mut r: Vec<&'a TypeRef> = Vec::new();
    match info {
        TypeInfo::Interface(i) => {
            push_refs(&mut r, &i.extends);
        },
        TypeInfo::Class(c) => {
            match &c.super_class {
                Some(s) => r.push(s),
                None => {},
            }
            push_refs(&mut r, &c.implements);
        },
        _ => {},
    }
    assert(r@.map_values(|t: &TypeRef| *t) =~= info_supers(*info));
    r
}

fn push_refs<'a>(out: &mut Vec<&'a TypeRef>, v: &'a Vec<TypeRef>)
    ensures
        final(out)@.map_values(|t: &TypeRef| *t) == old(out)@.map_values(|t: &TypeRef| *t) + v@,
{
    let mut i: usize = 0;
    while i < v.len()
        invariant
            i <= v@.len(),
            out@.map_values(|t: &TypeRef| *t) == old(out)@.map_values(|t: &TypeRef| *t) + v@.subrange(0, i as int),
        decreases v@.len() - i,
    {
        let ghost before = out@;
        out.push(&v[i]);
        assert(out@ == before.push(&v@[i as int]));
        assert(out@.map_values(|t: &TypeRef| *t) =~= before.map_values(|t: &TypeRef| *t).push(v@[i as int]));
        assert(v@.subrange(0, i + 1) =~= v@.subrange(0, i as int).push(v@[i as int]));
        assert(out@.map_values(|t: &TypeRef| *t) =~= old(out)@.map_values(|t: &TypeRef| *t) + v@.subrange(0, i + 1));
        i += 1;
    }
    assert(v@.subrange(0, v@.len() as int) =~= v@);
}

fn implementor_for<'a>(table: &'a TypeTable, s: &'a TypeRef, implementor: &'a TypeRef) -> (r: &'a TypeRef)
    ensures
        *r == if contains_implementation(table, *s) {
            *s
        } else {
            *implementor
        },
{
    match info_of(table, s) {
        Some(TypeInfo::Class(_)) => s,
        _ => implementor,
    }
}

proof fn lemma_supers_step(table: &TypeTable, sub: Seq<TypeRef>, implementor: TypeRef, env: Env, fuel: nat)
    requires
        sub.len() > 0,
    ensures
        ({
            let s = sub.last();
            let imp = if contains_implementation(table, s) {
                s
            } else {
                implementor
            };
            let se = super_env(table, env, s);
            spec_recursive_supers(table, sub, implementor, env, fuel) == spec_recursive_supers(
                table,
                sub.drop_last(),
                implementor,
                env,
                fuel,
            ).push((s, imp, se)) + if fuel == 0 {
                Seq::empty()
            } else {
                match resolved_info(table, &s) {
                    Some(info) => spec_recursive_supers(table, info_supers(info), imp, se, (fuel - 1) as nat),
                    None => Seq::empty(),
                }
            }
        }),
{
}

#[verifier::rlimit(50)]
fn recursive_supers_fuel<'a>(
    table: &'a TypeTable,
    supers: &Vec<&'a TypeRef>,
    implementor: &'a TypeRef,
    env: &TypeEnv,
    fuel: usize,
) -> (r: Vec<Super<'a>>)
    ensures
        supers_view(r@) == spec_recursive_supers(table, supers@.map_values(|t: &TypeRef| *t), *implementor, env@, fuel as nat),
    decreases fuel,
{
    let ghost sv = supers@.map_values(|t: &TypeRef| *t);
    let mut r: Vec<Super<'a>> = Vec::new();
    let mut i: usize = 0;
    while i < supers.len()
        invariant
            i <= supers@.len(),
            sv == supers@.map_values(|t: &TypeRef| *t),
            supers_view(r@) == spec_recursive_supers(table, sv.subrange(0, i as int), *implementor, env@, fuel as nat),
        decreases supers@.len() - i,
    {
        let ghost sub = sv.subrange(0, i + 1);
        assert(sub.drop_last() =~= sv.subrange(0, i as int));
        proof {
            lemma_supers_step(table, sub, *implementor, env@, fuel as nat);
        }
        let s: &'a TypeRef = supers[i];
        let imp = implementor_for(table, s, implementor);
        let se = super_env_of(table, env, s);
        let ghost sev = se@;
        let se_copy = se.copy();
        let ghost before = supers_view(r@);
        r.push(Super { item: s, implementor: imp, env: se });
        assert(supers_view(r@) =~= before.push((*s, *imp, sev)));
        if fuel > 0 {
            match info_of(table, s) {
                Some(info) => {
                    let above = super_traits(info);
                    let mut more = recursive_supers_fuel(table, &above, imp, &se_copy, fuel - 1);
                    let ghost mid = supers_view(r@);
                    let ghost mv = supers_view(more@);
                    r.append(&mut more);
                    assert(supers_view(r@) =~= mid + mv);
                },
                None => {
                    assert(supers_view(r@) =~= before.push((*s, *imp, sev)) + Seq::empty());
                },
            }
        } else {
            assert(supers_view(r@) =~= before.push((*s, *imp, sev)) + Seq::empty());
        }
        i += 1;
    }
    assert(sv.subrange(0, supers@.len() as int) =~= sv);
    r
}

/// Every super-type reachable from an interface or class, depth first, with
/// its implementor; `item` is the reference to the entity itself.
pub fn recursive_super_traits<'a>(table: &'a TypeTable, info: &'a TypeInfo, item: &'a TypeRef) -> (r: Vec<Super<'a>>)
    requires
        table.types@.len() < usize::MAX,
    ensures
        supers_view(r@) == spec_recursive_supers(table, info_supers(*info), *item, Seq::empty(), table_fuel(table)),
{
    let supers = super_traits(info);
    let env = TypeEnv::empty();
    recursive_supers_fuel(table, &supers, item, &env, table.types.len() + 1)
}

/// The name of the trait for a type: its target name, then `Trait`, then
/// its type arguments.
pub open spec fn trait_name_of(table: &TypeTable, r: TypeRef) -> Seq<char> {
    name_text(r.referent) + "Trait"@ + if r.type_params@.len() == 0 {
        Seq::empty()
    } else {
        "<"@ + crate::project::spec_text_list(table, r.type_params@, crate::project::Position::Plain, crate::funcs::depth())
            + ">"@
    }
}

/// Type parameters, each bound to be cloneable, in angle brackets; nothing
/// for none.
pub open spec fn constrained_generics(names: Seq<Seq<char>>) -> Seq<char> {
    if names.len() == 0 {
        Seq::empty()
    } else {
        "<"@ + crate::ident::join(names.map_values(|n: Seq<char>| n + ": std::clone::Clone"@), ", "@) + ">"@
    }
}


/// The members of an interface or class: an interface's fields stand as
/// properties.
pub open spec fn info_members(info: TypeInfo) -> Seq<(Seq<char>, Member)> {
    match info {
        TypeInfo::Interface(i) => i.fields@.map_values(|f: (String, TypeRef)| (f.0@, Member::Property(f.1))),
        TypeInfo::Class(c) => c.members@.map_values(|m: (String, Member)| (m.0@, m.1)),
        _ => Seq::empty(),
    }
}

/// The declarations a member contributes to a trait of the entity named
/// `js_name`: `new` for a constructor, the method itself, or a getter and a
/// setter for a property.
pub open spec fn member_decls(table: &TypeTable, js_name: Seq<char>, env: Env, n: Seq<char>, m: Member) -> Seq<Seq<char>> {
    match m {
        Member::Constructor(c) => seq![
            "fn new("@ + crate::funcs::param_list(table, crate::funcs::declared_view(c.params@), crate::funcs::ParamText::RustNamed)
                + ") -> std::result::Result<"@ + sanitize(camel_of(js_name)) + ", JsValue>"@,
        ],
        Member::Method(f) => seq![rust_fn_decl(table, FnProto::Func(&f), sanitize(snake_of(n)))],
        Member::Property(t) => seq![
            "fn "@ + sanitize(snake_of(n)) + "(&self) -> std::result::Result<"@ + spec_text_in(
                table,
                env,
                t,
                crate::project::Position::Owned,
                crate::funcs::depth(),
            ) + ", JsValue>"@,
            "fn "@ + sanitize(snake_of("set_"@ + n)) + "(&mut self, "@ + sanitize(snake_of("value"@)) + ": "@
                + spec_text_in(table, env, t, crate::project::Position::RustParam, crate::funcs::depth())
                + ") -> std::result::Result<(), JsValue>"@,
        ],
    }
}

/// The declarations of all members, in order.
pub open spec fn all_member_decls(table: &TypeTable, js_name: Seq<char>, env: Env, ms: Seq<(Seq<char>, Member)>) -> Seq<Seq<char>>
    decreases ms.len(),
{
    if ms.len() == 0 {
        Seq::empty()
    } else {
        all_member_decls(table, js_name, env, ms.drop_last()) + member_decls(table, js_name, env, ms.last().0, ms.last().1)
    }
}

fn snake_string(s: &str) -> (r: String)
    ensures
        r@ == sanitize(snake_of(s@)),
{
    let r = to_snake_case_ident(s).render();
    assert(r@ =~= sanitize(snake_of(s@)));
    r
}

/// A member, borrowed from a class or an interface.
pub enum MemberRef<'a> {
    Constructor(&'a crate::ir::Ctor),
    Method(&'a Func),
    Property(&'a TypeRef),
}

pub open spec fn member_of(m: MemberRef) -> Member {
    match m {
        MemberRef::Constructor(c) => Member::Constructor(*c),
        MemberRef::Method(f) => Member::Method(*f),
        MemberRef::Property(t) => Member::Property(*t),
    }
}

pub fn push_member_decls(out: &mut Vec<String>, table: &TypeTable, js_name: &str, file: usize, env: &TypeEnv, n: &String, m: MemberRef)
    ensures
        strings_view(final(out)@) == strings_view(old(out)@) + member_decls(table, js_name@, env@, n@, member_of(m)),
{
    let ghost start = strings_view(out@);
    match m {
        MemberRef::Constructor(c) => {
            let class_ident = TypeIdent::LocalName(String::from_str(js_name));
            let ctor = Constructor::new(c, class_ident, file);
            let proto = FnProto::Ctor(&ctor);
            let mut t: Vec<char> = Vec::new();
            push_str(&mut t, "fn new(");
            let ps = proto.params();
            crate::funcs::push_param_list(&mut t, table, &ps, crate::funcs::ParamText::RustNamed);
            push_str(&mut t, ") -> std::result::Result<");
            let cn = crate::ident::to_camel_case_ident(js_name).render();
            push_str(&mut t, cn.as_str());
            push_str(&mut t, ", JsValue>");
            out.push(string_of(&t));
            assert(strings_view(out@) =~= start + member_decls(table, js_name@, env@, n@, member_of(m)));
        },
        MemberRef::Method(f) => {
            let member = TraitMember::Method { name: to_snake_case_ident(n.as_str()), method: f };
            let name = member.name().render();
            assert(name@ =~= sanitize(snake_of(n@)));
            let mut t: Vec<char> = Vec::new();
            member.proto().push_rust_fn_decl(&mut t, table, name.as_str());
            out.push(string_of(&t));
            assert(strings_view(out@) =~= start + member_decls(table, js_name@, env@, n@, member_of(m)));
        },
        MemberRef::Property(typ) => {
            let mut g: Vec<char> = Vec::new();
            push_str(&mut g, "fn ");
            let gn = snake_string(n.as_str());
            push_str(&mut g, gn.as_str());
            push_str(&mut g, "(&self) -> std::result::Result<");
            push_text_in(&mut g, table, env, typ, crate::project::Position::Owned, usize::MAX);
            push_str(&mut g, ", JsValue>");
            let mut sn: Vec<char> = Vec::new();
            push_str(&mut sn, "set_");
            push_str(&mut sn, n.as_str());
            let set_name = snake_string(string_of(&sn).as_str());
            let mut st: Vec<char> = Vec::new();
            push_str(&mut st, "fn ");
            push_str(&mut st, set_name.as_str());
            push_str(&mut st, "(&mut self, ");
            let vn = snake_string("value");
            push_str(&mut st, vn.as_str());
            push_str(&mut st, ": ");
            push_text_in(&mut st, table, env, typ, crate::project::Position::RustParam, usize::MAX);
            push_str(&mut st, ") -> std::result::Result<(), JsValue>");
            out.push(string_of(&g));
            out.push(string_of(&st));
            assert(strings_view(out@) =~= start + member_decls(table, js_name@, env@, n@, member_of(m)));
        },
    }
}


/// Appends the declarations of all members of an interface or class.
pub fn push_all_member_decls(out: &mut Vec<String>, table: &TypeTable, js_name: &str, file: usize, env: &TypeEnv, info: &TypeInfo)
    ensures
        strings_view(final(out)@) == strings_view(old(out)@) + all_member_decls(table, js_name@, env@, info_members(*info)),
{
    let ghost start = strings_view(out@);
    let ghost ms = info_members(*info);
    match info {
        TypeInfo::Interface(iface) => {
            let mut i: usize = 0;
            while i < iface.fields.len()
                invariant
                    i <= iface.fields@.len(),
                    ms == info_members(*info),
                    *info == TypeInfo::Interface(*iface),
                    strings_view(out@) == start + all_member_decls(table, js_name@, env@, ms.subrange(0, i as int)),
                decreases iface.fields@.len() - i,
            {
                assert(ms.subrange(0, i + 1).drop_last() =~= ms.subrange(0, i as int));
                assert(ms[i as int] == (iface.fields@[i as int].0@, Member::Property(iface.fields@[i as int].1)));
                push_member_decls(out, table, js_name, file, env, &iface.fields[i].0, MemberRef::Property(&iface.fields[i].1));
                i += 1;
            }
            assert(ms.subrange(0, i as int) =~= ms);
        },
        TypeInfo::Class(class) => {
            let mut i: usize = 0;
            while i < class.members.len()
                invariant
                    i <= class.members@.len(),
                    ms == info_members(*info),
                    *info == TypeInfo::Class(*class),
                    strings_view(out@) == start + all_member_decls(table, js_name@, env@, ms.subrange(0, i as int)),
                decreases class.members@.len() - i,
            {
                assert(ms.subrange(0, i + 1).drop_last() =~= ms.subrange(0, i as int));
                assert(ms[i as int] == (class.members@[i as int].0@, class.members@[i as int].1));
                let m = match &class.members[i].1 {
                    Member::Constructor(c) => MemberRef::Constructor(c),
                    Member::Method(f) => MemberRef::Method(f),
                    Member::Property(t) => MemberRef::Property(t),
                };
                push_member_decls(out, table, js_name, file, env, &class.members[i].0, m);
                i += 1;
            }
            assert(ms.subrange(0, i as int) =~= ms);
        },
        _ => {
            assert(ms.len() == 0);
            assert(strings_view(out@) =~= start + all_member_decls(table, js_name@, env@, ms));
        },
    }
}


/// The names of a member's arguments, separated by `, `.
pub open spec fn arg_names(ps: Seq<crate::ir::Param>) -> Seq<char>
    decreases ps.len(),
{
    if ps.len() == 0 {
        Seq::empty()
    } else if ps.len() == 1 {
        sanitize(snake_of(ps[0].name@))
    } else {
        arg_names(ps.drop_last()) + ", "@ + sanitize(snake_of(ps.last().name@))
    }
}

/// `first`, then the arguments, separated by `, `.
pub open spec fn with_args(first: Seq<char>, ps: Seq<crate::ir::Param>) -> Seq<char> {
    if ps.len() == 0 {
        first
    } else {
        first + ", "@ + arg_names(ps)
    }
}

/// The line that views the receiver as the defining type `src`.
pub open spec fn cast_line(src: Seq<char>) -> Seq<char> {
    "let target: &"@ + src + " = self.as_ref();\n"@
}

/// The bodies a member's implementations delegate with, one per declaration
/// of `member_decls`: an interface reads and writes its own fields and
/// calls the defining type's method on itself; a class views itself as the
/// defining type `src` and calls that type's inherent member.
pub open spec fn member_bodies(is_class: bool, src: Seq<char>, n: Seq<char>, m: Member) -> Seq<Seq<char>> {
    let mn = sanitize(snake_of(n));
    match m {
        Member::Constructor(c) => seq![src + "::new("@ + arg_names(c.params@) + ")"@],
        Member::Method(f) => if is_class {
            seq![cast_line(src) + src + "::"@ + mn + "("@ + with_args("target"@, f.params@) + ")"@]
        } else {
            seq![src + "::"@ + mn + "("@ + with_args("self"@, f.params@) + ")"@]
        },
        Member::Property(_) => if is_class {
            seq![
                cast_line(src) + "std::result::Result::Ok("@ + src + "::"@ + mn + "(target))"@,
                cast_line(src) + src + "::"@ + sanitize(snake_of("set_"@ + n)) + "(target, value);\nOk(())"@,
            ]
        } else {
            seq![
                "std::result::Result::Ok(self."@ + mn + ".clone())"@,
                "self."@ + mn + " = value;\nstd::result::Result::Ok(())"@,
            ]
        },
    }
}

pub open spec fn all_member_bodies(is_class: bool, src: Seq<char>, ms: Seq<(Seq<char>, Member)>) -> Seq<Seq<char>>
    decreases ms.len(),
{
    if ms.len() == 0 {
        Seq::empty()
    } else {
        all_member_bodies(is_class, src, ms.drop_last()) + member_bodies(is_class, src, ms.last().0, ms.last().1)
    }
}

fn push_arg_names(out: &mut Vec<char>, ps: &Vec<crate::ir::Param>)
    ensures
        final(out)@ == old(out)@ + arg_names(ps@),
{
    let ghost start = out@;
    let mut i: usize = 0;
    assert(ps@.subrange(0, 0).len() == 0);
    while i < ps.len()
        invariant
            i <= ps@.len(),
            out@ == start + arg_names(ps@.subrange(0, i as int)),
        decreases ps@.len() - i,
    {
        let ghost sub = ps@.subrange(0, i + 1);
        assert(sub.drop_last() =~= ps@.subrange(0, i as int));
        if i > 0 {
            push_str(out, ", ");
        }
        let nm = snake_string(ps[i].name.as_str());
        push_str(out, nm.as_str());
        assert(out@ =~= start + arg_names(sub));
        i += 1;
    }
    assert(ps@.subrange(0, i as int) =~= ps@);
}

fn push_with_args(out: &mut Vec<char>, first: &str, ps: &Vec<crate::ir::Param>)
    ensures
        final(out)@ == old(out)@ + with_args(first@, ps@),
{
    let ghost start = out@;
    push_str(out, first);
    if ps.len() > 0 {
        push_str(out, ", ");
        push_arg_names(out, ps);
    }
    assert(out@ =~= start + with_args(first@, ps@));
}

fn push_cast_line(out: &mut Vec<char>, src: &str)
    ensures
        final(out)@ == old(out)@ + cast_line(src@),
{
    let ghost start = out@;
    push_str(out, "let target: &");
    push_str(out, src);
    push_str(out, " = self.as_ref();\n");
    assert(out@ =~= start + cast_line(src@));
}

fn push_member_bodies(out: &mut Vec<String>, is_class: bool, src: &str, n: &String, m: MemberRef)
    ensures
        strings_view(final(out)@) == strings_view(old(out)@) + member_bodies(is_class, src@, n@, member_of(m)),
{
    let ghost start = strings_view(out@);
    let mn = snake_string(n.as_str());
    match m {
        MemberRef::Constructor(c) => {
            let mut t: Vec<char> = Vec::new();
            push_str(&mut t, src);
            push_str(&mut t, "::new(");
            push_arg_names(&mut t, &c.params);
            push_str(&mut t, ")");
            out.push(string_of(&t));
        },
        MemberRef::Method(f) => {
            let mut t: Vec<char> = Vec::new();
            if is_class {
                push_cast_line(&mut t, src);
                push_str(&mut t, src);
                push_str(&mut t, "::");
                push_str(&mut t, mn.as_str());
                push_str(&mut t, "(");
                push_with_args(&mut t, "target", &f.params);
                push_str(&mut t, ")");
            } else {
                push_str(&mut t, src);
                push_str(&mut t, "::");
                push_str(&mut t, mn.as_str());
                push_str(&mut t, "(");
                push_with_args(&mut t, "self", &f.params);
                push_str(&mut t, ")");
            }
            out.push(string_of(&t));
        },
        MemberRef::Property(_) => {
            let mut g: Vec<char> = Vec::new();
            let mut st: Vec<char> = Vec::new();
            if is_class {
                push_cast_line(&mut g, src);
                push_str(&mut g, "std::result::Result::Ok(");
                push_str(&mut g, src);
                push_str(&mut g, "::");
                push_str(&mut g, mn.as_str());
                push_str(&mut g, "(target))");
                let mut sn: Vec<char> = Vec::new();
                push_str(&mut sn, "set_");
                push_str(&mut sn, n.as_str());
                let set_name = snake_string(string_of(&sn).as_str());
                push_cast_line(&mut st, src);
                push_str(&mut st, src);
                push_str(&mut st, "::");
                push_str(&mut st, set_name.as_str());
                push_str(&mut st, "(target, value);\nOk(())");
            } else {
                push_str(&mut g, "std::result::Result::Ok(self.");
                push_str(&mut g, mn.as_str());
                push_str(&mut g, ".clone())");
                push_str(&mut st, "self.");
                push_str(&mut st, mn.as_str());
                push_str(&mut st, " = value;\nstd::result::Result::Ok(())");
            }
            out.push(string_of(&g));
            out.push(string_of(&st));
        },
    }
    assert(strings_view(out@) =~= start + member_bodies(is_class, src@, n@, member_of(m)));
}

/// Within a class, the implementation of each method delegates by viewing
/// the receiver as the defining type `src` and calling that type's
/// inherent method with the arguments.
pub proof fn lemma_class_method_delegates(src: Seq<char>, ms: Seq<(Seq<char>, Member)>, i: int)
    requires
        0 <= i < ms.len(),
        ms[i].1 is Method,
    ensures
        exists|k: int|
            0 <= k < all_member_bodies(true, src, ms).len() && #[trigger] all_member_bodies(true, src, ms)[k]
                == cast_line(src) + src + "::"@ + sanitize(snake_of(ms[i].0)) + "("@ + with_args(
                "target"@,
                ms[i].1->Method_0.params@,
            ) + ")"@,
    decreases ms.len(),
{
    let prev = all_member_bodies(true, src, ms.drop_last());
    let all = all_member_bodies(true, src, ms);
    assert(all == prev + member_bodies(true, src, ms.last().0, ms.last().1));
    if i == ms.len() - 1 {
        assert(all[prev.len() as int] == member_bodies(true, src, ms.last().0, ms.last().1)[0]);
    } else {
        lemma_class_method_delegates(src, ms.drop_last(), i);
        let k = choose|k: int|
            0 <= k < prev.len() && #[trigger] prev[k] == cast_line(src) + src + "::"@ + sanitize(snake_of(ms[i].0)) + "("@
                + with_args("target"@, ms[i].1->Method_0.params@) + ")"@;
        assert(all[k] == prev[k]);
    }
}

/// Appends the delegating bodies of all members of an interface or class.
pub fn push_all_member_bodies(out: &mut Vec<String>, is_class: bool, src: &str, info: &TypeInfo)
    ensures
        strings_view(final(out)@) == strings_view(old(out)@) + all_member_bodies(is_class, src@, info_members(*info)),
{
    let ghost start = strings_view(out@);
    let ghost ms = info_members(*info);
    match info {
        TypeInfo::Interface(iface) => {
            let mut i: usize = 0;
            while i < iface.fields.len()
                invariant
                    i <= iface.fields@.len(),
                    ms == info_members(*info),
                    *info == TypeInfo::Interface(*iface),
                    strings_view(out@) == start + all_member_bodies(is_class, src@, ms.subrange(0, i as int)),
                decreases iface.fields@.len() - i,
            {
                assert(ms.subrange(0, i + 1).drop_last() =~= ms.subrange(0, i as int));
                assert(ms[i as int] == (iface.fields@[i as int].0@, Member::Property(iface.fields@[i as int].1)));
                push_member_bodies(out, is_class, src, &iface.fields[i].0, MemberRef::Property(&iface.fields[i].1));
                i += 1;
            }
            assert(ms.subrange(0, i as int) =~= ms);
        },
        TypeInfo::Class(class) => {
            let mut i: usize = 0;
            while i < class.members.len()
                invariant
                    i <= class.members@.len(),
                    ms == info_members(*info),
                    *info == TypeInfo::Class(*class),
                    strings_view(out@) == start + all_member_bodies(is_class, src@, ms.subrange(0, i as int)),
                decreases class.members@.len() - i,
            {
                assert(ms.subrange(0, i + 1).drop_last() =~= ms.subrange(0, i as int));
                assert(ms[i as int] == (class.members@[i as int].0@, class.members@[i as int].1));
                let m = match &class.members[i].1 {
                    Member::Constructor(c) => MemberRef::Constructor(c),
                    Member::Method(f) => MemberRef::Method(f),
                    Member::Property(t) => MemberRef::Property(t),
                };
                push_member_bodies(out, is_class, src, &class.members[i].0, m);
                i += 1;
            }
            assert(ms.subrange(0, i as int) =~= ms);
        },
        _ => {
            assert(ms.len() == 0);
            assert(strings_view(out@) =~= start + all_member_bodies(is_class, src@, ms));
        },
    }
}

/// An implementation of a trait up the hierarchy for the emitted entity.
pub struct TraitImpl {
    pub trait_name: String,
    /// The type whose inherent members the implementation delegates to.
    pub implementor: String,
    pub methods: Vec<String>,
    /// The body of each method, in the same order.
    pub bodies: Vec<String>,
}

/// The trait of an interface or class, with the implementations of every
/// trait it inherits.
pub struct TraitDefn {
    pub name: String,
    /// The entity's type parameters in angle brackets, or nothing.
    pub generics: String,
    /// The same, each bound to be cloneable, for the implementations.
    pub impl_generics: String,
    pub supers: Vec<String>,
    pub methods: Vec<String>,
    pub impls: Vec<TraitImpl>,
}

/// The super-types that get an implementation: every reachable one, then
/// the entity's own trait; none when the entity has no super-type.
pub open spec fn impl_targets(table: &TypeTable, info: TypeInfo, item: TypeRef) -> Seq<(TypeRef, TypeRef, Env)> {
    if info_supers(info).len() == 0 {
        Seq::empty()
    } else {
        spec_recursive_supers(table, info_supers(info), item, Seq::empty(), table_fuel(table)).push(
            (item, item, Seq::empty()),
        )
    }
}

/// The members whose declarations an implementation of the trait of `t`
/// holds: those of `info` for the entity itself, else those of what `t`
/// resolves to.
pub open spec fn target_members(table: &TypeTable, info: TypeInfo, item: TypeRef, t: TypeRef, is_self: bool) -> Seq<
    (Seq<char>, Member),
> {
    if is_self {
        info_members(info)
    } else {
        match resolved_info(table, &t) {
            Some(x) => info_members(x),
            None => Seq::empty(),
        }
    }
}

/// The trait's name and the traits it inherits.
pub open spec fn trait_header_ok(table: &TypeTable, js_name: Seq<char>, names: Seq<Seq<char>>, info: TypeInfo, d: TraitDefn) -> bool {
    &&& d.name@ == sanitize(camel_of(js_name)) + "Trait"@
    &&& d.generics@ == crate::iface::generics_text(names)
    &&& d.impl_generics@ == constrained_generics(names)
    &&& strings_view(d.supers@) == info_supers(info).map_values(|t: TypeRef| trait_name_of(table, t))
}

/// Which trait each implementation is of, and whom it delegates to.
pub open spec fn trait_impls_ok(table: &TypeTable, info: TypeInfo, item: TypeRef, d: TraitDefn) -> bool {
    let targets = impl_targets(table, info, item);
    &&& d.impls@.len() == targets.len()
    &&& forall|k: int|
        0 <= k < targets.len() ==> {
            &&& (#[trigger] d.impls@[k]).trait_name@ == trait_name_of(table, targets[k].0)
            &&& d.impls@[k].implementor@ == name_text(targets[k].1.referent)
        }
}

pub open spec fn info_is_class(info: TypeInfo) -> bool {
    info is Class
}

/// The delegating bodies of each implementation.
pub open spec fn trait_bodies_ok(table: &TypeTable, info: TypeInfo, item: TypeRef, d: TraitDefn) -> bool {
    let targets = impl_targets(table, info, item);
    forall|k: int|
        0 <= k < d.impls@.len() && k < targets.len() ==> strings_view((#[trigger] d.impls@[k]).bodies@)
            == all_member_bodies(
            info_is_class(info),
            name_text(targets[k].1.referent),
            target_members(table, info, item, targets[k].0, k == targets.len() - 1),
        )
}

/// The member declarations of the trait and of each implementation.
pub open spec fn trait_methods_ok(table: &TypeTable, js_name: Seq<char>, info: TypeInfo, item: TypeRef, d: TraitDefn) -> bool {
    let targets = impl_targets(table, info, item);
    &&& strings_view(d.methods@) == all_member_decls(table, js_name, Seq::empty(), info_members(info))
    &&& forall|k: int|
        0 <= k < d.impls@.len() && k < targets.len() ==> strings_view((#[trigger] d.impls@[k]).methods@) == all_member_decls(
            table,
            js_name,
            targets[k].2,
            target_members(table, info, item, targets[k].0, k == targets.len() - 1),
        )
}

pub open spec fn is_trait_defn(
    table: &TypeTable,
    js_name: Seq<char>,
    names: Seq<Seq<char>>,
    info: TypeInfo,
    item: TypeRef,
    d: TraitDefn,
) -> bool {
    &&& trait_header_ok(table, js_name, names, info, d)
    &&& trait_impls_ok(table, info, item, d)
    &&& trait_methods_ok(table, js_name, info, item, d)
    &&& trait_bodies_ok(table, info, item, d)
}

fn trait_name_string(table: &TypeTable, r: &TypeRef) -> (s: String)
    ensures
        s@ == trait_name_of(table, *r),
{
    let mut t: Vec<char> = Vec::new();
    push_name_text(&mut t, &r.referent);
    push_str(&mut t, "Trait");
    let ghost head = t@;
    if r.type_params.len() > 0 {
        push_str(&mut t, "<");
        crate::project::push_text_list(&mut t, table, &r.type_params, r.type_params.len(), crate::project::Position::Plain, usize::MAX);
        assert(r.type_params@.subrange(0, r.type_params@.len() as int) =~= r.type_params@);
        push_str(&mut t, ">");
    } else {
        assert(t@ =~= head + Seq::<char>::empty());
    }
    let s = string_of(&t);
    assert(s@ =~= trait_name_of(table, *r));
    s
}

fn constrained_string(names: &Vec<String>) -> (r: String)
    ensures
        r@ == constrained_generics(strings_view(names@)),
{
    let framed = crate::emit::frame_all(names, "", ": std::clone::Clone");
    proof {
        reveal_strlit("");
    }
    assert(strings_view(framed@) =~= strings_view(names@).map_values(|n: Seq<char>| n + ": std::clone::Clone"@));
    let mut t: Vec<char> = Vec::new();
    if names.len() > 0 {
        push_str(&mut t, "<");
        let j = crate::ident::join_strings(&framed, ", ");
        push_str(&mut t, j.as_str());
        push_str(&mut t, ">");
    }
    let r = string_of(&t);
    assert(r@ =~= constrained_generics(strings_view(names@)));
    r
}

fn name_string(r: &TypeRef) -> (s: String)
    ensures
        s@ == name_text(r.referent),
{
    let mut t: Vec<char> = Vec::new();
    push_name_text(&mut t, &r.referent);
    assert(t@ =~= name_text(r.referent));
    string_of(&t)
}

/// The trait of the interface or class `info`, named `js_name`, whose own
/// reference is `item` (read against `file`).
pub fn render_trait_defn(table: &TypeTable, js_name: &str, params: &Vec<String>, file: usize, info: &TypeInfo, item: &TypeRef) -> (d: TraitDefn)
    requires
        table.types@.len() < usize::MAX,
    ensures
        is_trait_defn(table, js_name@, strings_view(params@), *info, *item, d),
{
    let mut name_chars: Vec<char> = Vec::new();
    let cn = crate::ident::to_camel_case_ident(js_name).render();
    push_str(&mut name_chars, cn.as_str());
    push_str(&mut name_chars, "Trait");
    let name = string_of(&name_chars);
    let direct = super_traits(info);
    let ghost dv = direct@.map_values(|t: &TypeRef| *t);
    let mut supers: Vec<String> = Vec::new();
    let mut i: usize = 0;
    while i < direct.len()
        invariant
            i <= direct@.len(),
            dv == direct@.map_values(|t: &TypeRef| *t),
            strings_view(supers@) == dv.subrange(0, i as int).map_values(|t: TypeRef| trait_name_of(table, t)),
        decreases direct@.len() - i,
    {
        let ghost before = strings_view(supers@);
        supers.push(trait_name_string(table, direct[i]));
        assert(strings_view(supers@) =~= before.push(trait_name_of(table, dv[i as int])));
        assert(dv.subrange(0, i + 1).map_values(|t: TypeRef| trait_name_of(table, t)) =~= dv.subrange(0, i as int).map_values(|t: TypeRef| trait_name_of(table, t)).push(trait_name_of(table, dv[i as int])));
        i += 1;
    }
    assert(dv.subrange(0, i as int) =~= dv);
    let no_env = TypeEnv::empty();
    let mut methods: Vec<String> = Vec::new();
    push_all_member_decls(&mut methods, table, js_name, file, &no_env, info);
    assert(strings_view(methods@) =~= all_member_decls(table, js_name@, Seq::empty(), info_members(*info)));
    let mut impls: Vec<TraitImpl> = Vec::new();
    if direct.len() > 0 {
        let ups = recursive_super_traits(table, info, item);
        let ghost targets = impl_targets(table, *info, *item);
        assert(targets =~= supers_view(ups@).push((*item, *item, Seq::<(Seq<char>, Seq<char>)>::empty())));
        let mut k: usize = 0;
        while k < ups.len()
            invariant
                k <= ups@.len(),
                targets == supers_view(ups@).push((*item, *item, Seq::<(Seq<char>, Seq<char>)>::empty())),
                impls@.len() == k,
                forall|q: int|
                    0 <= q < k ==> {
                        &&& (#[trigger] impls@[q]).trait_name@ == trait_name_of(table, targets[q].0)
                        &&& impls@[q].implementor@ == name_text(targets[q].1.referent)
                        &&& strings_view(impls@[q].methods@) == all_member_decls(
                            table,
                            js_name@,
                            targets[q].2,
                            target_members(table, *info, *item, targets[q].0, q == targets.len() - 1),
                        )
                        &&& strings_view(impls@[q].bodies@) == all_member_bodies(
                            info_is_class(*info),
                            name_text(targets[q].1.referent),
                            target_members(table, *info, *item, targets[q].0, q == targets.len() - 1),
                        )
                    },
            decreases ups@.len() - k,
        {
            let up = &ups[k];
            let src = name_string(up.implementor);
            let is_class = match info {
                TypeInfo::Class(_) => true,
                _ => false,
            };
            let mut ms: Vec<String> = Vec::new();
            let mut bs: Vec<String> = Vec::new();
            match info_of(table, up.item) {
                Some(x) => {
                    push_all_member_decls(&mut ms, table, js_name, file, &up.env, x);
                    push_all_member_bodies(&mut bs, is_class, src.as_str(), x);
                },
                None => {},
            }
            assert(strings_view(ms@) =~= all_member_decls(table, js_name@, targets[k as int].2, target_members(table, *info, *item, targets[k as int].0, false)));
            assert(strings_view(bs@) =~= all_member_bodies(info_is_class(*info), src@, target_members(table, *info, *item, targets[k as int].0, false)));
            impls.push(TraitImpl { trait_name: trait_name_string(table, up.item), implementor: src, methods: ms, bodies: bs });
            k += 1;
        }
        let mut own: Vec<String> = Vec::new();
        push_all_member_decls(&mut own, table, js_name, file, &no_env, info);
        assert(strings_view(own@) =~= all_member_decls(table, js_name@, Seq::empty(), info_members(*info)));
        let src = name_string(item);
        let is_class = match info {
            TypeInfo::Class(_) => true,
            _ => false,
        };
        let mut own_bodies: Vec<String> = Vec::new();
        push_all_member_bodies(&mut own_bodies, is_class, src.as_str(), info);
        impls.push(TraitImpl { trait_name: trait_name_string(table, item), implementor: src, methods: own, bodies: own_bodies });
    }
    TraitDefn {
        name,
        generics: crate::iface::generics_string(params),
        impl_generics: constrained_string(params),
        supers,
        methods,
        impls,
    }
}


proof fn lemma_first_super(table: &TypeTable, supers: Seq<TypeRef>, implementor: TypeRef, env: Env, fuel: nat)
    requires
        supers.len() > 0,
    ensures
        spec_recursive_supers(table, supers, implementor, env, fuel).len() > 0,
        spec_recursive_supers(table, supers, implementor, env, fuel)[0].0 == supers[0],
    decreases supers.len(),
{
    let prev = spec_recursive_supers(table, supers.drop_last(), implementor, env, fuel);
    if supers.len() > 1 {
        lemma_first_super(table, supers.drop_last(), implementor, env, fuel);
    } else {
        assert(prev.len() == 0);
    }
}

/// The trait of a class with a super-class inherits the super-class's
/// trait, and the class gets an implementation of that trait.
pub proof fn lemma_class_inherits_super_trait(
    table: &TypeTable,
    js_name: Seq<char>,
    names: Seq<Seq<char>>,
    class: Class,
    item: TypeRef,
    d: TraitDefn,
)
    requires
        class.super_class is Some,
        trait_header_ok(table, js_name, names, TypeInfo::Class(class), d),
        trait_impls_ok(table, TypeInfo::Class(class), item, d),
    ensures
        d.supers@.len() > 0,
        d.supers@[0]@ == trait_name_of(table, class.super_class->0),
        exists|k: int| 0 <= k < d.impls@.len() && (#[trigger] d.impls@[k]).trait_name@ == trait_name_of(table, class.super_class->0),
{
    let info = TypeInfo::Class(class);
    let sup = info_supers(info);
    assert(sup == seq![class.super_class->0] + class.implements@);
    assert(sup.len() > 0);
    assert(sup[0] == class.super_class->0);
    assert(strings_view(d.supers@).len() == sup.len());
    assert(strings_view(d.supers@)[0] == trait_name_of(table, sup[0]));
    assert(strings_view(d.supers@)[0] == d.supers@[0]@);
    lemma_first_super(table, sup, item, Seq::empty(), table_fuel(table));
    let targets = impl_targets(table, info, item);
    assert(targets[0].0 == sup[0]);
    assert(d.impls@[0].trait_name@ == trait_name_of(table, targets[0].0));
}


proof fn lemma_member_lens(table: &TypeTable, js_name: Seq<char>, env: Env, is_class: bool, src: Seq<char>, ms: Seq<(Seq<char>, Member)>)
    ensures
        all_member_decls(table, js_name, env, ms).len() == all_member_bodies(is_class, src, ms).len(),
    decreases ms.len(),
{
    if ms.len() > 0 {
        lemma_member_lens(table, js_name, env, is_class, src, ms.drop_last());
    }
}

/// Each implementation of a trait has one body per method.
pub proof fn lemma_impl_bodies_match(table: &TypeTable, js_name: Seq<char>, names: Seq<Seq<char>>, info: TypeInfo, item: TypeRef, d: TraitDefn)
    requires
        is_trait_defn(table, js_name, names, info, item, d),
    ensures
        forall|k: int| 0 <= k < d.impls@.len() ==> (#[trigger] d.impls@[k]).methods@.len() == d.impls@[k].bodies@.len(),
{
    let targets = impl_targets(table, info, item);
    assert forall|k: int| 0 <= k < d.impls@.len() implies (#[trigger] d.impls@[k]).methods@.len() == d.impls@[k].bodies@.len() by {
        let ms = target_members(table, info, item, targets[k].0, k == targets.len() - 1);
        if k < targets.len() {
            lemma_member_lens(table, js_name, targets[k].2, info_is_class(info), name_text(targets[k].1.referent), ms);
        }
        assert(strings_view(d.impls@[k].methods@).len() == d.impls@[k].methods@.len());
        assert(strings_view(d.impls@[k].bodies@).len() == d.impls@[k].bodies@.len());
    }
}

}
