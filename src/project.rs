//! Type projections: the target-language text of a type reference in each
//! position where it occurs.
use crate::ident::{camel_of, chars_of, sanitize, to_camel_case_ident};
use crate::ir::{Builtin, TypeIdent, TypeInfo, TypeRef, TypeTable};
use crate::resolve::{SerializationType, serialization_type, spec_serialization_type};
use vstd::prelude::*;

verus! {

/// Appends the characters of `s`.
pub fn push_str(out: &mut Vec<char>, s: &str)
    ensures
        final(out)@ == old(out)@ + s@,
{
    let mut cs = chars_of(s);
    out.append(&mut cs);
}

pub fn push_chars(out: &mut Vec<char>, s: &Vec<char>)
    ensures
        final(out)@ == old(out)@ + s@,
{
    let mut cs = s.clone();
    assert(cs@ =~= s@);
    out.append(&mut cs);
}

/// The target type that a builtin name stands for.
pub open spec fn builtin_name(b: Builtin) -> Seq<char> {
    match b {
        Builtin::Fn => "Fn"@,
        Builtin::PrimitiveAny => "JsValue"@,
        Builtin::PrimitiveNumber => "f64"@,
        Builtin::PrimitiveObject => "std::collections::HashMap<String, JsValue>"@,
        Builtin::PrimitiveBoolean => "bool"@,
        Builtin::PrimitiveBigInt => "u64"@,
        Builtin::PrimitiveString => "String"@,
        Builtin::PrimitiveSymbol => "js_sys::Symbol"@,
        Builtin::PrimitiveVoid => "()"@,
        Builtin::PrimitiveUndefined => "()"@,
        Builtin::PrimitiveNull => "()"@,
        Builtin::BuiltinDate => "js_sys::Date"@,
        Builtin::BuiltinPromise => "js_sys::Promise"@,
        Builtin::Array => "Vec"@,
        Builtin::Optional => "Option"@,
    }
}

fn push_builtin_name(out: &mut Vec<char>, b: Builtin)
    ensures
        final(out)@ == old(out)@ + builtin_name(b),
{
    match b {
        Builtin::Fn => push_str(out, "Fn"),
        Builtin::PrimitiveAny => push_str(out, "JsValue"),
        Builtin::PrimitiveNumber => push_str(out, "f64"),
        Builtin::PrimitiveObject => push_str(out, "std::collections::HashMap<String, JsValue>"),
        Builtin::PrimitiveBoolean => push_str(out, "bool"),
        Builtin::PrimitiveBigInt => push_str(out, "u64"),
        Builtin::PrimitiveString => push_str(out, "String"),
        Builtin::PrimitiveSymbol => push_str(out, "js_sys::Symbol"),
        Builtin::PrimitiveVoid => push_str(out, "()"),
        Builtin::PrimitiveUndefined => push_str(out, "()"),
        Builtin::PrimitiveNull => push_str(out, "()"),
        Builtin::BuiltinDate => push_str(out, "js_sys::Date"),
        Builtin::BuiltinPromise => push_str(out, "js_sys::Promise"),
        Builtin::Array => push_str(out, "Vec"),
        Builtin::Optional => push_str(out, "Option"),
    }
}

/// The target name of a type name: a builtin's target type, else the
/// sanitized camel case form of its last segment.
pub open spec fn name_text(n: TypeIdent) -> Seq<char> {
    match n {
        TypeIdent::Builtin(b) => builtin_name(b),
        TypeIdent::LocalName(s) => sanitize(camel_of(s@)),
        TypeIdent::QualifiedName(v) => if v@.len() == 0 {
            Seq::empty()
        } else {
            sanitize(camel_of(v@.last()@))
        },
        TypeIdent::GeneratedName(s) => sanitize(camel_of(s@)),
    }
}

fn push_camel(out: &mut Vec<char>, s: &String)
    ensures
        final(out)@ == old(out)@ + sanitize(camel_of(s@)),
{
    let id = to_camel_case_ident(s.as_str());
    let t = id.render();
    assert(t@ =~= sanitize(camel_of(s@)));
    push_str(out, t.as_str());
}

pub fn push_name_text(out: &mut Vec<char>, n: &TypeIdent)
    ensures
        final(out)@ == old(out)@ + name_text(*n),
{
    match n {
        TypeIdent::Builtin(b) => push_builtin_name(out, *b),
        TypeIdent::LocalName(s) => push_camel(out, s),
        TypeIdent::QualifiedName(v) => {
            if v.len() == 0 {
                assert(out@ =~= old(out)@ + Seq::<char>::empty());
            } else {
                push_camel(out, &v[v.len() - 1]);
            }
        },
        TypeIdent::GeneratedName(s) => push_camel(out, s),
    }
}

/// The positions a type is rendered in.
#[derive(Clone, Copy, PartialEq, Eq, Structural, Debug)]
pub enum Position {
    /// The type as the target names it.
    Plain,
    /// A sized, owned form: callables behind a reference-counted pointer.
    Owned,
    /// A parameter of a function callable from the target language.
    RustParam,
    /// A parameter within a callable type's own signature, whose carrier is
    /// owned: callables by value.
    InnerParam,
    /// A parameter or result of a function exposed to JS.
    JsParam,
}

/// The reference to the builtin callable that `r` stands for, directly or
/// through aliases and references, if it stands for one.
pub open spec fn spec_fn_ref(table: &TypeTable, r: TypeRef, fuel: nat) -> Option<TypeRef>
    decreases fuel,
{
    if r.referent == TypeIdent::Builtin(Builtin::Fn) {
        Some(r)
    } else if fuel == 0 {
        None
    } else {
        match crate::resolve::spec_step(table, &r) {
            Some(crate::resolve::Resolved::At(i)) => if i < table.types@.len() {
                match table.types@[i as int].info {
                    TypeInfo::Alias(t) => spec_fn_ref(table, t, (fuel - 1) as nat),
                    TypeInfo::Ref(t) => spec_fn_ref(table, t, (fuel - 1) as nat),
                    _ => None,
                }
            } else {
                None
            },
            _ => None,
        }
    }
}

fn fn_ref_of<'a>(table: &'a TypeTable, r: &'a TypeRef, fuel: usize) -> (res: Option<&'a TypeRef>)
    ensures
        match res {
            Some(f) => spec_fn_ref(table, *r, fuel as nat) == Some(*f),
            None => spec_fn_ref(table, *r, fuel as nat) is None,
        },
    decreases fuel,
{
    match &r.referent {
        TypeIdent::Builtin(Builtin::Fn) => {
            return Some(r);
        },
        TypeIdent::Builtin(_) => {
            return None;
        },
        _ => {},
    }
    if fuel == 0 {
        return None;
    }
    match crate::resolve::lookup(table, r.file, &r.referent) {
        Some(i) => {
            assert(crate::resolve::spec_step(table, r) == Some(crate::resolve::Resolved::At(i)));
            if i < table.types.len() {
                match &table.types[i].info {
                    TypeInfo::Alias(t) => fn_ref_of(table, t, fuel - 1),
                    TypeInfo::Ref(t) => fn_ref_of(table, t, fuel - 1),
                    _ => None,
                }
            } else {
                None
            }
        },
        None => {
            assert(crate::resolve::spec_step(table, r) is None);
            None
        },
    }
}

/// The parameter types of a callable reference: all type arguments but the
/// last.
pub open spec fn fn_params(r: TypeRef) -> Seq<TypeRef> {
    if r.type_params@.len() == 0 {
        Seq::empty()
    } else {
        r.type_params@.drop_last()
    }
}


/// The text of a type reference in a position.
pub open spec fn spec_text(table: &TypeTable, r: TypeRef, pos: Position, fuel: nat) -> Seq<char>
    decreases fuel, 0nat,
{
    if fuel == 0 {
        Seq::empty()
    } else {
        let f = (fuel - 1) as nat;
        match pos {
            Position::Plain => match r.referent {
                TypeIdent::Builtin(Builtin::Fn) => "dyn Fn("@ + spec_text_list(
                    table,
                    fn_params(r),
                    Position::InnerParam,
                    f,
                ) + ") -> Result<"@ + (if r.type_params@.len() == 0 {
                    "()"@
                } else {
                    spec_text(table, r.type_params@.last(), Position::Owned, f)
                }) + ", JsValue>"@,
                TypeIdent::Builtin(Builtin::PrimitiveVoid) => "()"@,
                _ => name_text(r.referent) + if r.type_params@.len() == 0 {
                    Seq::empty()
                } else {
                    "<"@ + spec_text_list(table, r.type_params@, Position::Plain, f) + ">"@
                },
            },
            Position::Owned => if r.referent == TypeIdent::Builtin(Builtin::Fn) {
                "std::rc::Rc<"@ + spec_text(table, r, Position::Plain, f) + ">"@
            } else {
                spec_text(table, r, Position::Plain, f)
            },
            Position::RustParam => match spec_serialization_type(table, &r) {
                SerializationType::Ref => "&"@ + spec_text(table, r, Position::Plain, f),
                SerializationType::Fn => "&'static "@ + spec_text(table, r, Position::Plain, f),
                _ => spec_text(table, r, Position::Plain, f),
            },
            Position::InnerParam => match spec_serialization_type(table, &r) {
                SerializationType::Ref => "&"@ + spec_text(table, r, Position::Plain, f),
                _ => spec_text(table, r, Position::Plain, f),
            },
            Position::JsParam => match spec_serialization_type(table, &r) {
                SerializationType::Raw => spec_text(table, r, Position::Plain, f),
                SerializationType::Ref => "&"@ + spec_text(table, r, Position::Plain, f),
                SerializationType::SerdeJson => "JsValue"@,
                SerializationType::Fn => match spec_fn_ref(table, r, f) {
                    Some(g) => "&Closure<dyn Fn("@ + spec_text_list(
                        table,
                        fn_params(g),
                        Position::JsParam,
                        f,
                    ) + ") -> std::result::Result<"@ + (if g.type_params@.len() == 0 {
                        "()"@
                    } else {
                        spec_text(table, g.type_params@.last(), Position::JsParam, f)
                    }) + ", JsValue>>"@,
                    None => "JsValue"@,
                },
            },
        }
    }
}

/// The texts of a list of references in a position, separated by `, `.
pub open spec fn spec_text_list(table: &TypeTable, rs: Seq<TypeRef>, pos: Position, fuel: nat) -> Seq<
    char,
>
    decreases fuel, rs.len(),
{
    if rs.len() == 0 {
        Seq::empty()
    } else if rs.len() == 1 {
        spec_text(table, rs[0], pos, fuel)
    } else {
        spec_text_list(table, rs.drop_last(), pos, fuel) + ", "@ + spec_text(table, rs.last(), pos, fuel)
    }
}

pub fn push_text_list(
    out: &mut Vec<char>,
    table: &TypeTable,
    rs: &Vec<TypeRef>,
    n: usize,
    pos: Position,
    fuel: usize,
)
    requires
        n <= rs@.len(),
    ensures
        final(out)@ == old(out)@ + spec_text_list(table, rs@.subrange(0, n as int), pos, fuel as nat),
    decreases fuel, 2nat,
{
    let ghost start = out@;
    let mut k: usize = 0;
    assert(spec_text_list(table, rs@.subrange(0, 0), pos, fuel as nat) =~= Seq::<char>::empty());
    assert(out@ =~= start + Seq::<char>::empty());
    while k < n
        invariant
            n <= rs@.len(),
            k <= n,
            out@ == start + spec_text_list(table, rs@.subrange(0, k as int), pos, fuel as nat),
        decreases n - k,
    {
        let ghost sub = rs@.subrange(0, k + 1);
        let ghost before = out@;
        assert(sub.drop_last() =~= rs@.subrange(0, k as int));
        assert(sub.last() == rs@[k as int]);
        if k > 0 {
            push_str(out, ", ");
        }
        push_text(out, table, &rs[k], pos, fuel);
        proof {
            if k == 0 {
                assert(sub.len() == 1);
                assert(sub[0] == rs@[0]);
                assert(spec_text_list(table, sub, pos, fuel as nat) == spec_text(table, rs@[0], pos, fuel as nat));
                assert(out@ =~= start + spec_text_list(table, sub, pos, fuel as nat));
            } else {
                assert(spec_text_list(table, sub, pos, fuel as nat) == spec_text_list(table, rs@.subrange(0, k as int), pos, fuel as nat) + ", "@ + spec_text(table, rs@[k as int], pos, fuel as nat));
                assert(out@ =~= start + spec_text_list(table, sub, pos, fuel as nat));
            }
        }
        k += 1;
    }
}

fn push_plain(out: &mut Vec<char>, table: &TypeTable, r: &TypeRef, fuel: usize)
    requires
        fuel > 0,
    ensures
        final(out)@ == old(out)@ + spec_text(table, *r, Position::Plain, fuel as nat),
    decreases fuel, 0nat,
{
    let f = fuel - 1;
    let ghost start = out@;
    match &r.referent {
        TypeIdent::Builtin(Builtin::Fn) => {
            push_str(out, "dyn Fn(");
            let n = if r.type_params.len() == 0 { 0 } else { r.type_params.len() - 1 };
            assert(r.type_params@.subrange(0, n as int) =~= fn_params(*r));
            push_text_list(out, table, &r.type_params, n, Position::InnerParam, f);
            push_str(out, ") -> Result<");
            if r.type_params.len() == 0 {
                push_str(out, "()");
            } else {
                push_text(out, table, &r.type_params[r.type_params.len() - 1], Position::Owned, f);
            }
            push_str(out, ", JsValue>");
        },
        TypeIdent::Builtin(Builtin::PrimitiveVoid) => {
            push_str(out, "()");
        },
        _ => {
            push_name_text(out, &r.referent);
            if r.type_params.len() > 0 {
                push_str(out, "<");
                assert(r.type_params@.subrange(0, r.type_params@.len() as int) =~= r.type_params@);
                push_text_list(out, table, &r.type_params, r.type_params.len(), Position::Plain, f);
                push_str(out, ">");
            }
        },
    }
    assert(out@ =~= start + spec_text(table, *r, Position::Plain, fuel as nat));
}

fn push_js_param(out: &mut Vec<char>, table: &TypeTable, r: &TypeRef, fuel: usize)
    requires
        fuel > 0,
    ensures
        final(out)@ == old(out)@ + spec_text(table, *r, Position::JsParam, fuel as nat),
    decreases fuel, 0nat,
{
    let f = fuel - 1;
    let ghost start = out@;
    match serialization_type(table, r) {
        SerializationType::Raw => {
            push_text(out, table, r, Position::Plain, f);
        },
        SerializationType::Ref => {
            push_str(out, "&");
            push_text(out, table, r, Position::Plain, f);
        },
        SerializationType::SerdeJson => {
            push_str(out, "JsValue");
        },
        SerializationType::Fn => {
            match fn_ref_of(table, r, f) {
                Some(g) => {
                    push_str(out, "&Closure<dyn Fn(");
                    let n = if g.type_params.len() == 0 { 0 } else { g.type_params.len() - 1 };
                    assert(g.type_params@.subrange(0, n as int) =~= fn_params(*g));
                    push_text_list(out, table, &g.type_params, n, Position::JsParam, f);
                    push_str(out, ") -> std::result::Result<");
                    if g.type_params.len() == 0 {
                        push_str(out, "()");
                    } else {
                        push_text(out, table, &g.type_params[g.type_params.len() - 1], Position::JsParam, f);
                    }
                    push_str(out, ", JsValue>>");
                },
                None => {
                    push_str(out, "JsValue");
                },
            }
        },
    }
    assert(out@ =~= start + spec_text(table, *r, Position::JsParam, fuel as nat));
}

/// Appends the text of `r` in position `pos`.
pub fn push_text(out: &mut Vec<char>, table: &TypeTable, r: &TypeRef, pos: Position, fuel: usize)
    ensures
        final(out)@ == old(out)@ + spec_text(table, *r, pos, fuel as nat),
    decreases fuel, 1nat,
{
    let ghost start = out@;
    if fuel == 0 {
        assert(out@ =~= start + spec_text(table, *r, pos, fuel as nat));
        return;
    }
    let f = fuel - 1;
    match pos {
        Position::Plain => push_plain(out, table, r, fuel),
        Position::JsParam => push_js_param(out, table, r, fuel),
        Position::Owned => {
            match &r.referent {
                TypeIdent::Builtin(Builtin::Fn) => {
                    push_str(out, "std::rc::Rc<");
                    push_text(out, table, r, Position::Plain, f);
                    push_str(out, ">");
                },
                _ => {
                    push_text(out, table, r, Position::Plain, f);
                },
            }
            assert(out@ =~= start + spec_text(table, *r, pos, fuel as nat));
        },
        Position::RustParam => {
            match serialization_type(table, r) {
                SerializationType::Ref => {
                    push_str(out, "&");
                    push_text(out, table, r, Position::Plain, f);
                },
                SerializationType::Fn => {
                    push_str(out, "&'static ");
                    push_text(out, table, r, Position::Plain, f);
                },
                _ => {
                    push_text(out, table, r, Position::Plain, f);
                },
            }
            assert(out@ =~= start + spec_text(table, *r, pos, fuel as nat));
        },
        Position::InnerParam => {
            match serialization_type(table, r) {
                SerializationType::Ref => {
                    push_str(out, "&");
                    push_text(out, table, r, Position::Plain, f);
                },
                _ => {
                    push_text(out, table, r, Position::Plain, f);
                },
            }
            assert(out@ =~= start + spec_text(table, *r, pos, fuel as nat));
        },
    }
}



/// The reference to the builtin callable that `r` stands for, if any.
pub fn fn_ref_of_public<'a>(table: &'a TypeTable, r: &'a TypeRef) -> (res: Option<&'a TypeRef>)
    ensures
        match res {
            Some(f) => spec_fn_ref(table, *r, usize::MAX as nat) == Some(*f),
            None => spec_fn_ref(table, *r, usize::MAX as nat) is None,
        },
{
    fn_ref_of(table, r, usize::MAX)
}

}
