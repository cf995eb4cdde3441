//! Function-like entities (functions, methods, constructors, property
//! accessors and callable types) seen through one prototype, and the
//! parameter projections and conversions that their emitted forms use.
use crate::ident::{Identifier, chars_of, sanitize, snake_of, string_of, to_snake_case_ident};
use crate::ir::{Builtin, Ctor, Func, Param, TypeIdent, TypeRef, TypeTable};
use crate::project::{Position, name_text, push_chars, push_name_text, push_str, push_text, spec_text};
use crate::resolve::{SerializationType, serialization_type, spec_serialization_type};
use vstd::prelude::*;

verus! {

/// Which half of a property an accessor is.
#[derive(Clone, Copy, PartialEq, Eq, Structural, Debug)]
pub enum AccessType {
    Getter,
    Setter,
}

/// The getter or setter of a class or interface property.
pub struct PropertyAccessor<'a> {
    pub property_name: Identifier,
    pub typ: &'a TypeRef,
    pub class_name: &'a TypeIdent,
    pub access_type: AccessType,
}

/// A constructor with the class it makes.
pub struct Constructor<'a> {
    pub class: TypeRef,
    pub ctor: &'a Ctor,
}

impl<'a> Constructor<'a> {
    /// A constructor of the class named `class_name`, read against `file`.
    pub fn new(ctor: &'a Ctor, class_name: TypeIdent, file: usize) -> (r: Constructor<'a>)
        ensures
            r.ctor == ctor,
            r.class.referent == class_name,
            r.class.type_params@.len() == 0,
            r.class.file == file,
    {
        let class_ref = TypeRef { referent: class_name, type_params: Vec::new(), file };
        Constructor { class: class_ref, ctor }
    }
}

/// One parameter of a prototype: the receiver, or a named argument.
pub enum ProtoParam<'a> {
    SelfParam { class_name: &'a TypeIdent, is_mut: bool },
    Arg { name: String, typ: &'a TypeRef, is_variadic: bool },
}

/// The view of every function-like entity that emission reads.
pub enum FnProto<'a> {
    Func(&'a Func),
    Ctor(&'a Constructor<'a>),
    Accessor(&'a PropertyAccessor<'a>),
    FnRef(&'a TypeRef),
}

/// A parameter as plain values.
pub enum ParamView {
    Receiver { class_name: TypeIdent, is_mut: bool },
    Arg { name: Seq<char>, typ: TypeRef, is_variadic: bool },
}

pub open spec fn param_view(p: ProtoParam) -> ParamView {
    match p {
        ProtoParam::SelfParam { class_name, is_mut } => ParamView::Receiver {
            class_name: *class_name,
            is_mut,
        },
        ProtoParam::Arg { name, typ, is_variadic } => ParamView::Arg {
            name: name@,
            typ: *typ,
            is_variadic,
        },
    }
}

pub open spec fn params_view(ps: Seq<ProtoParam>) -> Seq<ParamView> {
    ps.map_values(|p: ProtoParam| param_view(p))
}

pub open spec fn declared_view(ps: Seq<Param>) -> Seq<ParamView> {
    ps.map_values(
        |p: Param| ParamView::Arg { name: p.name@, typ: p.type_info, is_variadic: p.is_variadic },
    )
}

/// The decimal digits of a number.
pub open spec fn decimal(n: nat) -> Seq<char>
    decreases n,
{
    if n < 10 {
        seq![digit_char(n)]
    } else {
        decimal(n / 10).push(digit_char(n % 10))
    }
}

pub open spec fn digit_char(d: nat) -> char {
    if d == 0 {
        '0'
    } else if d == 1 {
        '1'
    } else if d == 2 {
        '2'
    } else if d == 3 {
        '3'
    } else if d == 4 {
        '4'
    } else if d == 5 {
        '5'
    } else if d == 6 {
        '6'
    } else if d == 7 {
        '7'
    } else if d == 8 {
        '8'
    } else {
        '9'
    }
}

fn digit(d: usize) -> (c: char)
    requires
        d < 10,
    ensures
        c == digit_char(d as nat),
{
    if d == 0 {
        '0'
    } else if d == 1 {
        '1'
    } else if d == 2 {
        '2'
    } else if d == 3 {
        '3'
    } else if d == 4 {
        '4'
    } else if d == 5 {
        '5'
    } else if d == 6 {
        '6'
    } else if d == 7 {
        '7'
    } else if d == 8 {
        '8'
    } else {
        '9'
    }
}

fn push_decimal(out: &mut Vec<char>, n: usize)
    ensures
        final(out)@ == old(out)@ + decimal(n as nat),
    decreases n,
{
    if n < 10 {
        out.push(digit(n));
        assert(out@ =~= old(out)@ + decimal(n as nat));
    } else {
        push_decimal(out, n / 10);
        out.push(digit(n % 10));
        assert(out@ =~= old(out)@ + decimal(n as nat));
    }
}

/// The synthesized names of a callable type's parameters: `arg0`, `arg1`...
pub open spec fn arg_name(i: nat) -> Seq<char> {
    "arg"@ + decimal(i)
}

/// The parameters of a callable type: all its type arguments but the last.
pub open spec fn fn_ref_params(r: TypeRef) -> Seq<ParamView> {
    Seq::new(
        crate::project::fn_params(r).len(),
        |i: int| ParamView::Arg { name: arg_name(i as nat), typ: r.type_params@[i], is_variadic: false },
    )
}

/// The parameters of a prototype, receiver first where there is one.
pub open spec fn spec_params(p: FnProto) -> Seq<ParamView> {
    match p {
        FnProto::Func(f) => match f.class_name {
            Some(c) => seq![ParamView::Receiver { class_name: c, is_mut: false }] + declared_view(
                f.params@,
            ),
            None => declared_view(f.params@),
        },
        FnProto::Ctor(c) => declared_view(c.ctor.params@),
        FnProto::Accessor(a) => match a.access_type {
            AccessType::Getter => seq![ParamView::Receiver { class_name: *a.class_name, is_mut: false }],
            AccessType::Setter => seq![
                ParamView::Receiver { class_name: *a.class_name, is_mut: true },
                ParamView::Arg { name: "value"@, typ: *a.typ, is_variadic: false },
            ],
        },
        FnProto::FnRef(r) => fn_ref_params(*r),
    }
}

/// The arguments of a prototype: its parameters without a synthesized
/// receiver.
pub open spec fn spec_args(p: FnProto) -> Seq<ParamView> {
    match p {
        FnProto::Func(f) => declared_view(f.params@),
        _ => spec_params(p),
    }
}

pub open spec fn spec_is_member(p: FnProto) -> bool {
    match p {
        FnProto::Func(f) => f.class_name is Some,
        FnProto::FnRef(_) => false,
        _ => true,
    }
}

fn param_of<'a>(p: &'a Param) -> (r: ProtoParam<'a>)
    ensures
        param_view(r) == (ParamView::Arg { name: p.name@, typ: p.type_info, is_variadic: p.is_variadic }),
{
    ProtoParam::Arg { name: p.name.clone(), typ: &p.type_info, is_variadic: p.is_variadic }
}

fn push_declared<'a>(out: &mut Vec<ProtoParam<'a>>, ps: &'a Vec<Param>)
    ensures
        params_view(final(out)@) == params_view(old(out)@) + declared_view(ps@),
{
    let mut i: usize = 0;
    while i < ps.len()
        invariant
            i <= ps@.len(),
            params_view(out@) == params_view(old(out)@) + declared_view(ps@.subrange(0, i as int)),
        decreases ps@.len() - i,
    {
        let ghost before = out@;
        out.push(param_of(&ps[i]));
        assert(params_view(out@) =~= params_view(before).push(param_view(out@.last())));
        assert(declared_view(ps@.subrange(0, i + 1)) =~= declared_view(ps@.subrange(0, i as int)).push(
            ParamView::Arg { name: ps@[i as int].name@, typ: ps@[i as int].type_info, is_variadic: ps@[i as int].is_variadic },
        ));
        i += 1;
    }
    assert(ps@.subrange(0, ps@.len() as int) =~= ps@);
}

impl<'a> FnProto<'a> {
    /// The parameters, receiver first where there is one.
    pub fn params(&self) -> (r: Vec<ProtoParam<'a>>)
        ensures
            params_view(r@) == spec_params(*self),
    {
        let mut r: Vec<ProtoParam<'a>> = Vec::new();
        match self {
            FnProto::Func(f) => {
                match &f.class_name {
                    Some(c) => {
                        r.push(ProtoParam::SelfParam { class_name: c, is_mut: false });
                    },
                    None => {},
                }
                let ghost head = params_view(r@);
                push_declared(&mut r, &f.params);
                proof {
                    if f.class_name is None {
                        assert(head =~= Seq::<ParamView>::empty());
                        assert(params_view(r@) =~= declared_view(f.params@));
                    }
                }
            },
            FnProto::Ctor(c) => {
                push_declared(&mut r, &c.ctor.params);
                assert(params_view(r@) =~= declared_view(c.ctor.params@));
            },
            FnProto::Accessor(a) => {
                match a.access_type {
                    AccessType::Getter => {
                        r.push(ProtoParam::SelfParam { class_name: a.class_name, is_mut: false });
                    },
                    AccessType::Setter => {
                        r.push(ProtoParam::SelfParam { class_name: a.class_name, is_mut: true });
                        let value = string_of(&vec!['v', 'a', 'l', 'u', 'e']);
                        proof {
                            reveal_strlit("value");
                            assert(value@ =~= "value"@);
                        }
                        r.push(ProtoParam::Arg { name: value, typ: a.typ, is_variadic: false });
                    },
                }
                assert(params_view(r@) =~= spec_params(*self));
            },
            FnProto::FnRef(t) => {
                let n = if t.type_params.len() == 0 { 0 } else { t.type_params.len() - 1 };
                let mut i: usize = 0;
                while i < n
                    invariant
                        n == crate::project::fn_params(**t).len(),
                        n <= t.type_params@.len(),
                        i <= n,
                        params_view(r@) == fn_ref_params(**t).subrange(0, i as int),
                    decreases n - i,
                {
                    let mut nm: Vec<char> = Vec::new();
                    push_str(&mut nm, "arg");
                    push_decimal(&mut nm, i);
                    let ghost before = r@;
                    r.push(ProtoParam::Arg { name: string_of(&nm), typ: &t.type_params[i], is_variadic: false });
                    assert(params_view(r@) =~= params_view(before).push(param_view(r@.last())));
                    assert(params_view(r@) =~= fn_ref_params(**t).subrange(0, i + 1));
                    i += 1;
                }
                assert(fn_ref_params(**t).subrange(0, n as int) =~= fn_ref_params(**t));
            },
        }
        r
    }

    /// The arguments: the parameters without a synthesized receiver.
    pub fn args(&self) -> (r: Vec<ProtoParam<'a>>)
        ensures
            params_view(r@) == spec_args(*self),
    {
        match self {
            FnProto::Func(f) => {
                let mut r: Vec<ProtoParam<'a>> = Vec::new();
                push_declared(&mut r, &f.params);
                assert(params_view(r@) =~= declared_view(f.params@));
                r
            },
            _ => self.params(),
        }
    }

    /// Whether the prototype is invoked through a receiver.
    pub fn is_member(&self) -> (r: bool)
        ensures
            r == spec_is_member(*self),
    {
        match self {
            FnProto::Func(f) => f.class_name.is_some(),
            FnProto::FnRef(_) => false,
            _ => true,
        }
    }
}


/// The depth to which types are rendered; nothing practical nests deeper.
pub open spec fn depth() -> nat {
    usize::MAX as nat
}

/// The target name of a parameter.
pub open spec fn rust_name_of(p: ParamView) -> Seq<char> {
    match p {
        ParamView::Receiver { .. } => sanitize(snake_of("self"@)),
        ParamView::Arg { name, .. } => sanitize(snake_of(name)),
    }
}

/// A parameter's type in an unnamed list exposed to JS (a function type).
pub open spec fn js_unnamed(table: &TypeTable, p: ParamView) -> Seq<char> {
    match p {
        ParamView::Receiver { class_name, .. } => "&"@ + name_text(class_name),
        ParamView::Arg { typ, is_variadic, .. } => if is_variadic {
            "&["@ + spec_text(table, typ, Position::JsParam, depth()) + "]"@
        } else {
            spec_text(table, typ, Position::JsParam, depth())
        },
    }
}

/// A parameter in a named list exposed to JS (a function definition).
pub open spec fn js_named(table: &TypeTable, p: ParamView) -> Seq<char> {
    match p {
        ParamView::Receiver { class_name, .. } => "this: &"@ + name_text(class_name),
        ParamView::Arg { .. } => rust_name_of(p) + ": "@ + js_unnamed(table, p),
    }
}

/// A parameter's type in an unnamed list idiomatic to target callers.
pub open spec fn rust_unnamed(table: &TypeTable, p: ParamView) -> Seq<char> {
    match p {
        ParamView::Receiver { is_mut, .. } => if is_mut {
            "&mut self"@
        } else {
            "&self"@
        },
        ParamView::Arg { typ, is_variadic, .. } => if is_variadic {
            "&["@ + spec_text(table, typ, Position::RustParam, depth()) + "]"@
        } else {
            spec_text(table, typ, Position::RustParam, depth())
        },
    }
}

/// A parameter in a named list idiomatic to target callers.
pub open spec fn rust_named(table: &TypeTable, p: ParamView) -> Seq<char> {
    match p {
        ParamView::Receiver { .. } => rust_unnamed(table, p),
        ParamView::Arg { .. } => rust_name_of(p) + ": "@ + rust_unnamed(table, p),
    }
}

/// The local closure that re-exposes a callable argument to JS.
pub open spec fn local_fn_name(p: ParamView) -> Seq<char> {
    match p {
        ParamView::Receiver { .. } => rust_name_of(p),
        ParamView::Arg { name, .. } => "__tsb_local_"@ + sanitize(snake_of(name)),
    }
}

/// The expression that hands a local argument of the wrapper to the
/// function exposed to JS.
pub open spec fn rust_to_js_conversion(table: &TypeTable, p: ParamView) -> Seq<char> {
    match p {
        ParamView::Receiver { .. } => rust_named(table, p),
        ParamView::Arg { typ, .. } => match spec_serialization_type(table, &typ) {
            SerializationType::SerdeJson => "ts_bindgen_rt::from_serde_or_undefined("@ + rust_name_of(p)
                + ")"@,
            SerializationType::Fn => "&"@ + local_fn_name(p),
            _ => rust_name_of(p),
        },
    }
}

fn snake_text(s: &str) -> (r: String)
    ensures
        r@ == sanitize(snake_of(s@)),
{
    let id = to_snake_case_ident(s);
    let r = id.render();
    assert(r@ =~= sanitize(snake_of(s@)));
    r
}

pub open spec fn view_of(p: &ProtoParam) -> ParamView {
    param_view(*p)
}

fn push_rust_name(out: &mut Vec<char>, p: &ProtoParam)
    ensures
        final(out)@ == old(out)@ + rust_name_of(param_view(*p)),
{
    match p {
        ProtoParam::SelfParam { .. } => {
            let t = snake_text("self");
            push_str(out, t.as_str());
        },
        ProtoParam::Arg { name, .. } => {
            let t = snake_text(name.as_str());
            push_str(out, t.as_str());
        },
    }
}

fn push_js_unnamed(out: &mut Vec<char>, table: &TypeTable, p: &ProtoParam)
    ensures
        final(out)@ == old(out)@ + js_unnamed(table, param_view(*p)),
{
    let ghost start = out@;
    match p {
        ProtoParam::SelfParam { class_name, .. } => {
            push_str(out, "&");
            push_name_text(out, class_name);
        },
        ProtoParam::Arg { typ, is_variadic, .. } => {
            if *is_variadic {
                push_str(out, "&[");
                push_text(out, table, typ, Position::JsParam, usize::MAX);
                push_str(out, "]");
            } else {
                push_text(out, table, typ, Position::JsParam, usize::MAX);
            }
        },
    }
    assert(out@ =~= start + js_unnamed(table, param_view(*p)));
}

fn push_js_named(out: &mut Vec<char>, table: &TypeTable, p: &ProtoParam)
    ensures
        final(out)@ == old(out)@ + js_named(table, param_view(*p)),
{
    let ghost start = out@;
    match p {
        ProtoParam::SelfParam { class_name, .. } => {
            push_str(out, "this: &");
            push_name_text(out, class_name);
        },
        ProtoParam::Arg { .. } => {
            push_rust_name(out, p);
            push_str(out, ": ");
            push_js_unnamed(out, table, p);
        },
    }
    assert(out@ =~= start + js_named(table, param_view(*p)));
}

fn push_rust_unnamed(out: &mut Vec<char>, table: &TypeTable, p: &ProtoParam)
    ensures
        final(out)@ == old(out)@ + rust_unnamed(table, param_view(*p)),
{
    let ghost start = out@;
    match p {
        ProtoParam::SelfParam { is_mut, .. } => {
            if *is_mut {
                push_str(out, "&mut self");
            } else {
                push_str(out, "&self");
            }
        },
        ProtoParam::Arg { typ, is_variadic, .. } => {
            if *is_variadic {
                push_str(out, "&[");
                push_text(out, table, typ, Position::RustParam, usize::MAX);
                push_str(out, "]");
            } else {
                push_text(out, table, typ, Position::RustParam, usize::MAX);
            }
        },
    }
    assert(out@ =~= start + rust_unnamed(table, param_view(*p)));
}

fn push_rust_named(out: &mut Vec<char>, table: &TypeTable, p: &ProtoParam)
    ensures
        final(out)@ == old(out)@ + rust_named(table, param_view(*p)),
{
    let ghost start = out@;
    match p {
        ProtoParam::SelfParam { .. } => {
            push_rust_unnamed(out, table, p);
        },
        ProtoParam::Arg { .. } => {
            push_rust_name(out, p);
            push_str(out, ": ");
            push_rust_unnamed(out, table, p);
        },
    }
    assert(out@ =~= start + rust_named(table, param_view(*p)));
}

fn push_local_fn_name(out: &mut Vec<char>, p: &ProtoParam)
    ensures
        final(out)@ == old(out)@ + local_fn_name(param_view(*p)),
{
    match p {
        ProtoParam::SelfParam { .. } => push_rust_name(out, p),
        ProtoParam::Arg { name, .. } => {
            push_str(out, "__tsb_local_");
            let t = snake_text(name.as_str());
            push_str(out, t.as_str());
        },
    }
}

fn push_conversion(out: &mut Vec<char>, table: &TypeTable, p: &ProtoParam)
    ensures
        final(out)@ == old(out)@ + rust_to_js_conversion(table, param_view(*p)),
{
    let ghost start = out@;
    match p {
        ProtoParam::SelfParam { .. } => push_rust_named(out, table, p),
        ProtoParam::Arg { typ, .. } => {
            match serialization_type(table, typ) {
                SerializationType::SerdeJson => {
                    push_str(out, "ts_bindgen_rt::from_serde_or_undefined(");
                    push_rust_name(out, p);
                    push_str(out, ")");
                },
                SerializationType::Fn => {
                    push_str(out, "&");
                    push_local_fn_name(out, p);
                },
                _ => push_rust_name(out, p),
            }
            assert(out@ =~= start + rust_to_js_conversion(table, param_view(*p)));
        },
    }
}

/// The four projections and the conversion of a parameter, by kind.
#[derive(Clone, Copy, PartialEq, Eq, Structural, Debug)]
pub enum ParamText {
    JsNamed,
    JsUnnamed,
    RustNamed,
    RustUnnamed,
    Conversion,
    /// The parameter's target name.
    Name,
    /// `let <name> = <conversion to a JS value>;` on a line.
    LetJsValue,
    /// `args.push(&<name>);` on a line.
    PushArg,
}

/// The expression that turns a local argument into a `JsValue`.
pub open spec fn rust_to_jsvalue_conversion(table: &TypeTable, p: ParamView) -> Seq<char> {
    match p {
        ParamView::Receiver { .. } => rust_named(table, p),
        ParamView::Arg { typ, .. } => match spec_serialization_type(table, &typ) {
            SerializationType::SerdeJson => "ts_bindgen_rt::from_serde_or_undefined("@ + rust_name_of(p)
                + ")"@,
            SerializationType::Fn => "&"@ + local_fn_name(p),
            _ => "JsValue::from("@ + rust_name_of(p) + ")"@,
        },
    }
}

pub open spec fn param_text(table: &TypeTable, p: ParamView, kind: ParamText) -> Seq<char> {
    match kind {
        ParamText::JsNamed => js_named(table, p),
        ParamText::JsUnnamed => js_unnamed(table, p),
        ParamText::RustNamed => rust_named(table, p),
        ParamText::RustUnnamed => rust_unnamed(table, p),
        ParamText::Conversion => rust_to_js_conversion(table, p),
        ParamText::Name => rust_name_of(p),
        ParamText::LetJsValue => "let "@ + rust_name_of(p) + " = "@ + rust_to_jsvalue_conversion(table, p)
            + ";\n"@,
        ParamText::PushArg => "args.push(&"@ + rust_name_of(p) + ");\n"@,
    }
}

/// The texts of the parameters, separated by `, `.
pub open spec fn param_list(table: &TypeTable, ps: Seq<ParamView>, kind: ParamText) -> Seq<char>
    decreases ps.len(),
{
    if ps.len() == 0 {
        Seq::empty()
    } else if ps.len() == 1 {
        param_text(table, ps[0], kind)
    } else {
        param_list(table, ps.drop_last(), kind) + ", "@ + param_text(table, ps.last(), kind)
    }
}

fn push_param_text(out: &mut Vec<char>, table: &TypeTable, p: &ProtoParam, kind: ParamText)
    ensures
        final(out)@ == old(out)@ + param_text(table, param_view(*p), kind),
{
    match kind {
        ParamText::JsNamed => push_js_named(out, table, p),
        ParamText::JsUnnamed => push_js_unnamed(out, table, p),
        ParamText::RustNamed => push_rust_named(out, table, p),
        ParamText::RustUnnamed => push_rust_unnamed(out, table, p),
        ParamText::Conversion => push_conversion(out, table, p),
        ParamText::Name => push_rust_name(out, p),
        ParamText::LetJsValue => {
            let ghost start = out@;
            push_str(out, "let ");
            push_rust_name(out, p);
            push_str(out, " = ");
            match p {
                ProtoParam::SelfParam { .. } => push_rust_named(out, table, p),
                ProtoParam::Arg { typ, .. } => {
                    match serialization_type(table, typ) {
                        SerializationType::SerdeJson => {
                            push_str(out, "ts_bindgen_rt::from_serde_or_undefined(");
                            push_rust_name(out, p);
                            push_str(out, ")");
                        },
                        SerializationType::Fn => {
                            push_str(out, "&");
                            push_local_fn_name(out, p);
                        },
                        _ => {
                            push_str(out, "JsValue::from(");
                            push_rust_name(out, p);
                            push_str(out, ")");
                        },
                    }
                },
            }
            push_str(out, ";\n");
            assert(out@ =~= start + param_text(table, param_view(*p), kind));
        },
        ParamText::PushArg => {
            let ghost start = out@;
            push_str(out, "args.push(&");
            push_rust_name(out, p);
            push_str(out, ");\n");
            assert(out@ =~= start + param_text(table, param_view(*p), kind));
        },
    }
}

/// The texts of the parameters, one after another.
pub open spec fn param_concat(table: &TypeTable, ps: Seq<ParamView>, kind: ParamText) -> Seq<char>
    decreases ps.len(),
{
    if ps.len() == 0 {
        Seq::empty()
    } else {
        param_concat(table, ps.drop_last(), kind) + param_text(table, ps.last(), kind)
    }
}

/// Appends the texts of the parameters, one after another.
pub fn push_param_concat(out: &mut Vec<char>, table: &TypeTable, ps: &Vec<ProtoParam>, kind: ParamText)
    ensures
        final(out)@ == old(out)@ + param_concat(table, params_view(ps@), kind),
{
    let ghost start = out@;
    let ghost pv = params_view(ps@);
    let mut k: usize = 0;
    assert(out@ =~= start + param_concat(table, pv.subrange(0, 0), kind));
    while k < ps.len()
        invariant
            k <= ps@.len(),
            pv == params_view(ps@),
            out@ == start + param_concat(table, pv.subrange(0, k as int), kind),
        decreases ps@.len() - k,
    {
        let ghost sub = pv.subrange(0, k + 1);
        assert(sub.drop_last() =~= pv.subrange(0, k as int));
        push_param_text(out, table, &ps[k], kind);
        assert(out@ =~= start + param_concat(table, sub, kind));
        k += 1;
    }
    assert(pv.subrange(0, ps@.len() as int) =~= pv);
}

/// Appends the texts of the parameters, separated by `, `.
pub fn push_param_list(out: &mut Vec<char>, table: &TypeTable, ps: &Vec<ProtoParam>, kind: ParamText)
    ensures
        final(out)@ == old(out)@ + param_list(table, params_view(ps@), kind),
{
    let ghost start = out@;
    let ghost pv = params_view(ps@);
    let mut k: usize = 0;
    assert(out@ =~= start + param_list(table, pv.subrange(0, 0), kind));
    while k < ps.len()
        invariant
            k <= ps@.len(),
            pv == params_view(ps@),
            out@ == start + param_list(table, pv.subrange(0, k as int), kind),
        decreases ps@.len() - k,
    {
        let ghost sub = pv.subrange(0, k + 1);
        assert(sub.drop_last() =~= pv.subrange(0, k as int));
        if k > 0 {
            push_str(out, ", ");
        }
        push_param_text(out, table, &ps[k], kind);
        assert(out@ =~= start + param_list(table, sub, kind));
        k += 1;
    }
    assert(pv.subrange(0, ps@.len() as int) =~= pv);
}


/// A variadic parameter renders as a slice in all four projections, named
/// and unnamed, exposed to JS and to target callers.
pub proof fn lemma_variadic_renders_as_slice(table: &TypeTable, name: Seq<char>, typ: TypeRef)
    ensures
        ({
            let p = ParamView::Arg { name, typ, is_variadic: true };
            let js = spec_text(table, typ, Position::JsParam, depth());
            let rs = spec_text(table, typ, Position::RustParam, depth());
            &&& js_unnamed(table, p) == "&["@ + js + "]"@
            &&& js_named(table, p) == rust_name_of(p) + ": "@ + ("&["@ + js + "]"@)
            &&& rust_unnamed(table, p) == "&["@ + rs + "]"@
            &&& rust_named(table, p) == rust_name_of(p) + ": "@ + ("&["@ + rs + "]"@)
        }),
{
}

/// The last declared parameter of a function is the last parameter of its
/// prototype.
pub proof fn lemma_last_param_is_declared(f: &Func)
    requires
        f.params@.len() > 0,
    ensures
        spec_params(FnProto::Func(f)).last() == (ParamView::Arg {
            name: f.params@.last().name@,
            typ: f.params@.last().type_info,
            is_variadic: f.params@.last().is_variadic,
        }),
{
    let d = declared_view(f.params@);
    match f.class_name {
        Some(c) => {
            let s = seq![ParamView::Receiver { class_name: c, is_mut: false }] + d;
            assert(s.last() == d.last());
        },
        None => {},
    }
}

/// Where the wrapper's arguments stand among the prototype's parameters:
/// after the receiver of a method, else from the start.
pub open spec fn args_offset(p: FnProto) -> int {
    match p {
        FnProto::Func(f) => if f.class_name is Some {
            1
        } else {
            0
        },
        _ => 0,
    }
}

/// Each argument that the wrapper hands on is the parameter of the function
/// exposed to JS at the same position (after the receiver), and converting
/// it turns the wrapper's parameter type into that function's: a natively
/// bridged value or a reference passes as it is with the same type, a value
/// bridged through JSON becomes the runtime's `JsValue`, and a callable is
/// handed on as its local closure.
pub proof fn lemma_wrapper_matches_internal(table: &TypeTable, p: FnProto, i: int)
    requires
        0 <= i < spec_args(p).len(),
    ensures
        spec_params(p).len() == spec_args(p).len() + args_offset(p),
        spec_params(p)[i + args_offset(p)] == spec_args(p)[i],
        ({
            let a = spec_args(p)[i];
            match a {
                ParamView::Arg { typ, is_variadic, .. } => match spec_serialization_type(table, &typ) {
                    SerializationType::Raw | SerializationType::Ref => {
                        &&& rust_to_js_conversion(table, a) == rust_name_of(a)
                        &&& js_unnamed(table, a) == rust_unnamed(table, a)
                    },
                    SerializationType::SerdeJson => {
                        &&& rust_to_js_conversion(table, a) == "ts_bindgen_rt::from_serde_or_undefined("@
                            + rust_name_of(a) + ")"@
                        &&& js_unnamed(table, a) == (if is_variadic {
                            "&[JsValue]"@
                        } else {
                            "JsValue"@
                        })
                    },
                    SerializationType::Fn => rust_to_js_conversion(table, a) == "&"@ + local_fn_name(a),
                },
                ParamView::Receiver { .. } => true,
            }
        }),
{
    match p {
        FnProto::Func(f) => {
            match f.class_name {
                Some(c) => {
                    let d = declared_view(f.params@);
                    let s = seq![ParamView::Receiver { class_name: c, is_mut: false }] + d;
                    assert(s[i + 1] == d[i]);
                },
                None => {},
            }
        },
        _ => {},
    }
    let a = spec_args(p)[i];
    match a {
        ParamView::Arg { typ, is_variadic, .. } => {
            let f = (depth() - 1) as nat;
            assert(spec_text(table, typ, Position::JsParam, depth()) == match spec_serialization_type(table, &typ) {
                SerializationType::Raw => spec_text(table, typ, Position::Plain, f),
                SerializationType::Ref => "&"@ + spec_text(table, typ, Position::Plain, f),
                SerializationType::SerdeJson => "JsValue"@,
                SerializationType::Fn => spec_text(table, typ, Position::JsParam, depth()),
            });
            assert(spec_text(table, typ, Position::RustParam, depth()) == match spec_serialization_type(table, &typ) {
                SerializationType::Ref => "&"@ + spec_text(table, typ, Position::Plain, f),
                SerializationType::Fn => "&'static "@ + spec_text(table, typ, Position::Plain, f),
                _ => spec_text(table, typ, Position::Plain, f),
            });
            if is_variadic && spec_serialization_type(table, &typ) == SerializationType::SerdeJson {
                reveal_strlit("&[JsValue]");
                reveal_strlit("&[");
                reveal_strlit("JsValue");
                reveal_strlit("]");
                assert("&["@ + "JsValue"@ + "]"@ =~= "&[JsValue]"@);
            }
        },
        _ => {},
    }
}


/// What a prototype returns; `None` for nothing.
pub open spec fn spec_return(p: FnProto) -> Option<TypeRef> {
    match p {
        FnProto::Func(f) => Some(f.return_type),
        FnProto::Ctor(c) => Some(c.class),
        FnProto::Accessor(a) => match a.access_type {
            AccessType::Getter => Some(*a.typ),
            AccessType::Setter => None,
        },
        FnProto::FnRef(r) => if r.type_params@.len() == 0 {
            None
        } else {
            Some(r.type_params@.last())
        },
    }
}

impl<'a> FnProto<'a> {
    /// What the prototype returns; `None` for nothing.
    pub fn return_type(&self) -> (r: Option<&'a TypeRef>)
        ensures
            match r {
                Some(t) => spec_return(*self) == Some(*t),
                None => spec_return(*self) is None,
            },
    {
        match self {
            FnProto::Func(f) => Some(&f.return_type),
            FnProto::Ctor(c) => Some(&c.class),
            FnProto::Accessor(a) => match a.access_type {
                AccessType::Getter => Some(a.typ),
                AccessType::Setter => None,
            },
            FnProto::FnRef(r) => {
                if r.type_params.len() == 0 {
                    None
                } else {
                    Some(&r.type_params[r.type_params.len() - 1])
                }
            },
        }
    }
}

/// The result of a function in a position, wrapped with the JS error:
/// `std::result::Result<T, JsValue>`.
pub open spec fn result_text(table: &TypeTable, ret: Option<TypeRef>, pos: Position) -> Seq<char> {
    "std::result::Result<"@ + match ret {
        Some(t) => spec_text(table, t, pos, depth()),
        None => "()"@,
    } + ", JsValue>"@
}

fn push_result_text(out: &mut Vec<char>, table: &TypeTable, ret: Option<&TypeRef>, pos: Position)
    ensures
        final(out)@ == old(out)@ + result_text(
            table,
            match ret {
                Some(t) => Some(*t),
                None => None,
            },
            pos,
        ),
{
    let ghost start = out@;
    push_str(out, "std::result::Result<");
    match ret {
        Some(t) => push_text(out, table, t, pos, usize::MAX),
        None => push_str(out, "()"),
    }
    push_str(out, ", JsValue>");
    assert(out@ =~= start + result_text(
        table,
        match ret {
            Some(t) => Some(*t),
            None => None,
        },
        pos,
    ));
}

/// The declaration of a prototype exposed to JS under a name.
pub open spec fn js_fn_decl(table: &TypeTable, p: FnProto, name: Seq<char>) -> Seq<char> {
    "fn "@ + name + "("@ + param_list(table, spec_params(p), ParamText::JsNamed) + ") -> "@
        + result_text(table, spec_return(p), Position::JsParam)
}

/// The declaration of a prototype callable from the target language.
pub open spec fn rust_fn_decl(table: &TypeTable, p: FnProto, name: Seq<char>) -> Seq<char> {
    "fn "@ + name + "("@ + param_list(table, spec_params(p), ParamText::RustNamed) + ") -> "@
        + result_text(table, spec_return(p), Position::Owned)
}

impl<'a> FnProto<'a> {
    /// Appends the declaration exposed to JS under `name`.
    pub fn push_js_fn_decl(&self, out: &mut Vec<char>, table: &TypeTable, name: &str)
        ensures
            final(out)@ == old(out)@ + js_fn_decl(table, *self, name@),
    {
        let ghost start = out@;
        push_str(out, "fn ");
        push_str(out, name);
        push_str(out, "(");
        let ps = self.params();
        push_param_list(out, table, &ps, ParamText::JsNamed);
        push_str(out, ") -> ");
        push_result_text(out, table, self.return_type(), Position::JsParam);
        assert(out@ =~= start + js_fn_decl(table, *self, name@));
    }

    /// Appends the declaration callable from the target language.
    pub fn push_rust_fn_decl(&self, out: &mut Vec<char>, table: &TypeTable, name: &str)
        ensures
            final(out)@ == old(out)@ + rust_fn_decl(table, *self, name@),
    {
        let ghost start = out@;
        push_str(out, "fn ");
        push_str(out, name);
        push_str(out, "(");
        let ps = self.params();
        push_param_list(out, table, &ps, ParamText::RustNamed);
        push_str(out, ") -> ");
        push_result_text(out, table, self.return_type(), Position::Owned);
        assert(out@ =~= start + rust_fn_decl(table, *self, name@));
    }
}

/// The declaration, exposed to JS, of a declared function.
pub struct InternalFunc<'a> {
    pub func: &'a Func,
    pub js_name: &'a str,
}

/// The name of the internal function for a JS name: `__tsb_` before its
/// snake case identifier.
pub open spec fn internal_name(js_name: Seq<char>) -> Seq<char> {
    "__tsb_"@ + sanitize(snake_of(js_name))
}

impl<'a> InternalFunc<'a> {
    /// The identifier of the internal function for a JS name.
    pub fn to_internal_rust_name(js_name: &str) -> (r: Identifier)
        ensures
            r@ == (seq![internal_name(js_name@)], Seq::<Seq<char>>::empty()),
    {
        let id = to_snake_case_ident(js_name);
        id.prefix_name("__tsb_")
    }

    /// The text of the declaration: `pub fn __tsb_<name>(...) -> ...;`.
    pub fn to_text(&self, table: &TypeTable) -> (r: String)
        ensures
            r@ == "pub "@ + js_fn_decl(table, FnProto::Func(self.func), internal_name(self.js_name@))
                + ";"@,
    {
        let name = Self::to_internal_rust_name(self.js_name).render();
        assert(name@ =~= internal_name(self.js_name@));
        let mut out: Vec<char> = Vec::new();
        push_str(&mut out, "pub ");
        FnProto::Func(self.func).push_js_fn_decl(&mut out, table, name.as_str());
        push_str(&mut out, ";");
        let r = string_of(&out);
        assert(r@ =~= "pub "@ + js_fn_decl(table, FnProto::Func(self.func), internal_name(self.js_name@))
            + ";"@);
        r
    }
}

/// The wrapper, callable from the target language, of a declared function.
pub struct WrapperFunc<'a> {
    pub func: &'a Func,
    pub js_name: &'a str,
}

impl<'a> WrapperFunc<'a> {
    /// The identifier of the wrapper for a JS name: its snake case form.
    pub fn to_rust_name(js_name: &str) -> (r: Identifier)
        ensures
            r@ == crate::ident::ident_view(snake_of(js_name@)),
    {
        to_snake_case_ident(js_name)
    }
}


/// The expression that turns a JS value, local under the parameter's name,
/// into the parameter's target type.
pub open spec fn js_to_rust_conversion(table: &TypeTable, p: ParamView) -> Seq<char> {
    match p {
        ParamView::Receiver { .. } => rust_named(table, p),
        ParamView::Arg { typ, .. } => match spec_serialization_type(table, &typ) {
            SerializationType::SerdeJson => "ts_bindgen_rt::IntoSerdeOrDefault::into_serde_or_default(&"@
                + rust_name_of(p) + ").map_err(ts_bindgen_rt::Error::from)?"@,
            _ => rust_name_of(p),
        },
    }
}

/// The texts of the conversions back to target types, separated by `, `.
pub open spec fn back_list(table: &TypeTable, ps: Seq<ParamView>) -> Seq<char>
    decreases ps.len(),
{
    if ps.len() == 0 {
        Seq::empty()
    } else if ps.len() == 1 {
        js_to_rust_conversion(table, ps[0])
    } else {
        back_list(table, ps.drop_last()) + ", "@ + js_to_rust_conversion(table, ps.last())
    }
}

pub open spec fn ret_serialization(table: &TypeTable, ret: Option<TypeRef>) -> SerializationType {
    match ret {
        Some(t) => spec_serialization_type(table, &t),
        None => SerializationType::Raw,
    }
}

/// The expression that hands a callback's `result` back to JS.
pub open spec fn result_to_js(table: &TypeTable, ret: Option<TypeRef>) -> Seq<char> {
    match ret_serialization(table, ret) {
        SerializationType::SerdeJson => "ts_bindgen_rt::from_serde_or_undefined(result).map_err(ts_bindgen_rt::Error::from)?"@,
        SerializationType::Fn => "&result_adapter"@,
        _ => "result"@,
    }
}

/// The closure, callable from JS, that proxies calls to the callable
/// parameter `p` whose callable type is `g`.
pub open spec fn closure_text(table: &TypeTable, p: ParamView, g: TypeRef) -> Seq<char> {
    let proto = FnProto::FnRef(&g);
    let ret = result_text(table, spec_return(proto), Position::JsParam);
    "Closure::wrap(Box::new(move |"@ + param_list(table, spec_params(proto), ParamText::JsNamed) + "| -> "@ + ret
        + " {\nlet result = "@ + closure_call(table, p, g) + ")\n}) as Box<dyn Fn("@ + param_list(
        table,
        spec_params(proto),
        ParamText::JsUnnamed,
    ) + ") -> "@ + ret + ">)"@
}

/// The call of the callable parameter `p` inside its closure, and the
/// conversion of its result.
pub open spec fn closure_call(table: &TypeTable, p: ParamView, g: TypeRef) -> Seq<char> {
    let proto = FnProto::FnRef(&g);
    rust_name_of(p) + "("@ + back_list(table, spec_args(proto)) + ")?;\nOk("@ + result_to_js(table, spec_return(proto))
}

fn push_closure_call(out: &mut Vec<char>, table: &TypeTable, p: &ProtoParam, g: &TypeRef)
    ensures
        final(out)@ == old(out)@ + closure_call(table, param_view(*p), *g),
{
    let ghost start = out@;
    let proto = FnProto::FnRef(g);
    let args = proto.args();
    push_rust_name(out, p);
    push_str(out, "(");
    push_back_list(out, table, &args);
    push_str(out, ")?;\nOk(");
    push_result_to_js(out, table, proto.return_type());
    assert(out@ =~= start + closure_call(table, param_view(*p), *g));
}

/// The local closure a parameter needs, if it is callable.
pub open spec fn param_wrapper(table: &TypeTable, p: ParamView) -> Seq<char> {
    match p {
        ParamView::Arg { typ, .. } => if spec_serialization_type(table, &typ) == SerializationType::Fn {
            match crate::project::spec_fn_ref(table, typ, depth()) {
                Some(g) => "let "@ + local_fn_name(p) + " = "@ + closure_text(table, p, g) + ";\n"@,
                None => Seq::empty(),
            }
        } else {
            Seq::empty()
        },
        _ => Seq::empty(),
    }
}

pub open spec fn param_wrappers(table: &TypeTable, ps: Seq<ParamView>) -> Seq<char>
    decreases ps.len(),
{
    if ps.len() == 0 {
        Seq::empty()
    } else {
        param_wrappers(table, ps.drop_last()) + param_wrapper(table, ps.last())
    }
}

/// The wrapper's result from the value the internal function returned.
pub open spec fn return_conversion(table: &TypeTable, ret: Option<TypeRef>, value: Seq<char>) -> Seq<char> {
    match ret_serialization(table, ret) {
        SerializationType::SerdeJson => "ts_bindgen_rt::IntoSerdeOrDefault::into_serde_or_default(&"@ + value
            + ").unwrap()"@,
        SerializationType::Fn => value + ".into_serde().unwrap()"@,
        _ => value,
    }
}

/// The wrapper `name` of the prototype, calling the internal function
/// `internal`: it makes a closure for each callable parameter, converts
/// each argument, calls through the receiver for a member, and converts
/// the result back.
pub open spec fn wrapper_text(table: &TypeTable, p: FnProto, name: Seq<char>, internal: Seq<char>) -> Seq<char> {
    let value = (if spec_is_member(p) {
        "self."@
    } else {
        Seq::empty()
    }) + internal + "("@ + param_list(table, spec_args(p), ParamText::Conversion) + ")?"@;
    "#[allow(dead_code)]\npub "@ + rust_fn_decl(table, p, name)
        + " {\n#[allow(unused_imports)]\nuse ts_bindgen_rt::IntoSerdeOrDefault;\n"@ + param_wrappers(
        table,
        spec_params(p),
    ) + "Ok("@ + return_conversion(table, spec_return(p), value) + ")\n}\n"@
}

/// The call of the internal function that a wrapper makes: through the
/// receiver for a member, with each argument's conversion in order.
pub open spec fn internal_call(table: &TypeTable, p: FnProto, internal: Seq<char>) -> Seq<char> {
    (if spec_is_member(p) {
        "self."@
    } else {
        Seq::empty()
    }) + internal + "("@ + param_list(table, spec_args(p), ParamText::Conversion) + ")?"@
}

/// A wrapper calls the internal function once, handing it each argument
/// converted for JS, position by position; the rest of its body declares
/// closures and converts the result back.
pub proof fn lemma_wrapper_calls_internal(table: &TypeTable, p: FnProto, name: Seq<char>, internal: Seq<char>)
    ensures
        exists|pre: Seq<char>, post: Seq<char>|
            wrapper_text(table, p, name, internal) == pre + internal_call(table, p, internal) + post,
{
    let value = internal_call(table, p, internal);
    let pre0 = "#[allow(dead_code)]\npub "@ + rust_fn_decl(table, p, name)
        + " {\n#[allow(unused_imports)]\nuse ts_bindgen_rt::IntoSerdeOrDefault;\n"@ + param_wrappers(
        table,
        spec_params(p),
    ) + "Ok("@;
    let post0 = ")\n}\n"@;
    match ret_serialization(table, spec_return(p)) {
        SerializationType::SerdeJson => {
            let pre = pre0 + "ts_bindgen_rt::IntoSerdeOrDefault::into_serde_or_default(&"@;
            let post = ").unwrap()"@ + post0;
            assert(wrapper_text(table, p, name, internal) =~= pre + value + post);
        },
        SerializationType::Fn => {
            let post = ".into_serde().unwrap()"@ + post0;
            assert(wrapper_text(table, p, name, internal) =~= pre0 + value + post);
        },
        _ => {
            assert(wrapper_text(table, p, name, internal) =~= pre0 + value + post0);
        },
    }
}

fn push_back_list(out: &mut Vec<char>, table: &TypeTable, ps: &Vec<ProtoParam>)
    ensures
        final(out)@ == old(out)@ + back_list(table, params_view(ps@)),
{
    let ghost start = out@;
    let ghost pv = params_view(ps@);
    let mut k: usize = 0;
    assert(out@ =~= start + back_list(table, pv.subrange(0, 0)));
    while k < ps.len()
        invariant
            k <= ps@.len(),
            pv == params_view(ps@),
            out@ == start + back_list(table, pv.subrange(0, k as int)),
        decreases ps@.len() - k,
    {
        let ghost sub = pv.subrange(0, k + 1);
        assert(sub.drop_last() =~= pv.subrange(0, k as int));
        if k > 0 {
            push_str(out, ", ");
        }
        let ghost mid = out@;
        match &ps[k] {
            ProtoParam::SelfParam { .. } => push_rust_named(out, table, &ps[k]),
            ProtoParam::Arg { typ, .. } => {
                if serialization_type(table, typ) == SerializationType::SerdeJson {
                    push_str(out, "ts_bindgen_rt::IntoSerdeOrDefault::into_serde_or_default(&");
                    push_rust_name(out, &ps[k]);
                    push_str(out, ").map_err(ts_bindgen_rt::Error::from)?");
                } else {
                    push_rust_name(out, &ps[k]);
                }
            },
        }
        assert(out@ =~= mid + js_to_rust_conversion(table, pv[k as int]));
        assert(out@ =~= start + back_list(table, sub));
        k += 1;
    }
    assert(pv.subrange(0, ps@.len() as int) =~= pv);
}

fn ret_serialization_of(table: &TypeTable, ret: Option<&TypeRef>) -> (r: SerializationType)
    ensures
        r == ret_serialization(
            table,
            match ret {
                Some(t) => Some(*t),
                None => None,
            },
        ),
{
    match ret {
        Some(t) => serialization_type(table, t),
        None => SerializationType::Raw,
    }
}

fn push_result_to_js(out: &mut Vec<char>, table: &TypeTable, ret: Option<&TypeRef>)
    ensures
        final(out)@ == old(out)@ + result_to_js(
            table,
            match ret {
                Some(t) => Some(*t),
                None => None,
            },
        ),
{
    match ret_serialization_of(table, ret) {
        SerializationType::SerdeJson => push_str(out, "ts_bindgen_rt::from_serde_or_undefined(result).map_err(ts_bindgen_rt::Error::from)?"),
        SerializationType::Fn => push_str(out, "&result_adapter"),
        _ => push_str(out, "result"),
    }
}

fn push_closure(out: &mut Vec<char>, table: &TypeTable, p: &ProtoParam, g: &TypeRef)
    ensures
        final(out)@ == old(out)@ + closure_text(table, param_view(*p), *g),
{
    let ghost start = out@;
    let proto = FnProto::FnRef(g);
    let ps = proto.params();
    let ret = proto.return_type();
    let mut rt: Vec<char> = Vec::new();
    push_result_text(&mut rt, table, ret, Position::JsParam);
    push_str(out, "Closure::wrap(Box::new(move |");
    push_param_list(out, table, &ps, ParamText::JsNamed);
    push_str(out, "| -> ");
    push_chars(out, &rt);
    push_str(out, " {\nlet result = ");
    push_closure_call(out, table, p, g);
    push_str(out, ")\n}) as Box<dyn Fn(");
    push_param_list(out, table, &ps, ParamText::JsUnnamed);
    push_str(out, ") -> ");
    push_chars(out, &rt);
    push_str(out, ">)");
    assert(out@ =~= start + closure_text(table, param_view(*p), *g));
}

fn push_param_wrapper(out: &mut Vec<char>, table: &TypeTable, p: &ProtoParam)
    ensures
        final(out)@ == old(out)@ + param_wrapper(table, param_view(*p)),
{
    let ghost start = out@;
    match p {
        ProtoParam::Arg { typ, .. } => {
            if serialization_type(table, typ) == SerializationType::Fn {
                match crate::project::fn_ref_of_public(table, typ) {
                    Some(g) => {
                        push_str(out, "let ");
                        push_local_fn_name(out, p);
                        push_str(out, " = ");
                        push_closure(out, table, p, g);
                        push_str(out, ";\n");
                    },
                    None => {},
                }
            }
        },
        _ => {},
    }
    assert(out@ =~= start + param_wrapper(table, param_view(*p)));
}

fn push_param_wrappers(out: &mut Vec<char>, table: &TypeTable, ps: &Vec<ProtoParam>)
    ensures
        final(out)@ == old(out)@ + param_wrappers(table, params_view(ps@)),
{
    let ghost start = out@;
    let ghost pv = params_view(ps@);
    let mut k: usize = 0;
    assert(out@ =~= start + param_wrappers(table, pv.subrange(0, 0)));
    while k < ps.len()
        invariant
            k <= ps@.len(),
            pv == params_view(ps@),
            out@ == start + param_wrappers(table, pv.subrange(0, k as int)),
        decreases ps@.len() - k,
    {
        let ghost sub = pv.subrange(0, k + 1);
        assert(sub.drop_last() =~= pv.subrange(0, k as int));
        push_param_wrapper(out, table, &ps[k]);
        assert(out@ =~= start + param_wrappers(table, sub));
        k += 1;
    }
    assert(pv.subrange(0, ps@.len() as int) =~= pv);
}

fn push_return_conversion(out: &mut Vec<char>, table: &TypeTable, ret: Option<&TypeRef>, value: &Vec<char>)
    ensures
        final(out)@ == old(out)@ + return_conversion(
            table,
            match ret {
                Some(t) => Some(*t),
                None => None,
            },
            value@,
        ),
{
    let ghost start = out@;
    match ret_serialization_of(table, ret) {
        SerializationType::SerdeJson => {
            push_str(out, "ts_bindgen_rt::IntoSerdeOrDefault::into_serde_or_default(&");
            push_chars(out, value);
            push_str(out, ").unwrap()");
        },
        SerializationType::Fn => {
            push_chars(out, value);
            push_str(out, ".into_serde().unwrap()");
        },
        _ => push_chars(out, value),
    }
    assert(out@ =~= start + return_conversion(
        table,
        match ret {
            Some(t) => Some(*t),
            None => None,
        },
        value@,
    ));
}

impl<'a> FnProto<'a> {
    /// Appends the wrapper `name`, callable from the target language, that
    /// calls the internal function `internal`.
    pub fn push_wrapper(&self, out: &mut Vec<char>, table: &TypeTable, name: &str, internal: &str)
        ensures
            final(out)@ == old(out)@ + wrapper_text(table, *self, name@, internal@),
    {
        let ghost start = out@;
        let mut value: Vec<char> = Vec::new();
        if self.is_member() {
            push_str(&mut value, "self.");
        }
        push_str(&mut value, internal);
        push_str(&mut value, "(");
        let args = self.args();
        push_param_list(&mut value, table, &args, ParamText::Conversion);
        push_str(&mut value, ")?");
        push_str(out, "#[allow(dead_code)]\npub ");
        self.push_rust_fn_decl(out, table, name);
        push_str(out, " {\n#[allow(unused_imports)]\nuse ts_bindgen_rt::IntoSerdeOrDefault;\n");
        let ps = self.params();
        push_param_wrappers(out, table, &ps);
        push_str(out, "Ok(");
        push_return_conversion(out, table, self.return_type(), &value);
        push_str(out, ")\n}\n");
        proof {
            if !spec_is_member(*self) {
                reveal_strlit("");
            }
        }
        assert(out@ =~= start + wrapper_text(table, *self, name@, internal@));
    }
}

impl<'a> WrapperFunc<'a> {
    /// The text of the wrapper of the declared function.
    pub fn to_text(&self, table: &TypeTable) -> (r: String)
        ensures
            r@ == wrapper_text(
                table,
                FnProto::Func(self.func),
                sanitize(snake_of(self.js_name@)),
                internal_name(self.js_name@),
            ),
    {
        let name = Self::to_rust_name(self.js_name).render();
        assert(name@ =~= sanitize(snake_of(self.js_name@)));
        let internal = InternalFunc::to_internal_rust_name(self.js_name).render();
        assert(internal@ =~= internal_name(self.js_name@));
        let mut out: Vec<char> = Vec::new();
        FnProto::Func(self.func).push_wrapper(&mut out, table, name.as_str(), internal.as_str());
        let r = string_of(&out);
        assert(r@ =~= wrapper_text(table, FnProto::Func(self.func), name@, internal@));
        r
    }
}


/// A closure, callable from JS, that calls the callable `rn` of type `g`
/// with its arguments as they come.
pub open spec fn forwarding_closure(table: &TypeTable, rn: Seq<char>, g: TypeRef) -> Seq<char> {
    let proto = FnProto::FnRef(&g);
    let ret = result_text(table, spec_return(proto), Position::JsParam);
    "Closure::wrap(Box::new(move |"@ + param_list(table, spec_params(proto), ParamText::JsNamed) + "| -> "@ + ret
        + " {\n"@ + rn + "("@ + param_list(table, spec_args(proto), ParamText::Name) + ")\n}) as Box<dyn Fn("@
        + param_list(table, spec_params(proto), ParamText::JsUnnamed) + ") -> "@ + ret + ">)"@
}

/// The custom serializer `ser` of the callable field `rn` whose callable
/// type is `g` and whose field type renders as `owned`: it wraps a clone
/// of the field in a closure callable from JS and serializes that.
pub open spec fn serializer_text(table: &TypeTable, ser: Seq<char>, rn: Seq<char>, owned: Seq<char>, g: TypeRef) -> Seq<char> {
    "#[allow(non_snake_case)]\nfn "@ + ser + "<S>("@ + rn + ": &"@ + owned
        + ", serializer: S) -> std::result::Result<S::Ok, S::Error>\nwhere\nS: serde::ser::Serializer,\n{\nlet "@
        + rn + " = "@ + rn + ".clone();\nlet "@ + rn + " = "@ + forwarding_closure(table, rn, g)
        + ";\nlet jsv = ts_bindgen_rt::serialize_as_jsvalue(serializer, &"@ + rn + ".into_js_value());\njsv\n}\n"@
}

/// The conversion of the value `ret` that a JS function returned.
pub open spec fn raw_return(table: &TypeTable, ret: Option<TypeRef>) -> Seq<char> {
    match ret_serialization(table, ret) {
        SerializationType::SerdeJson => "ts_bindgen_rt::IntoSerdeOrDefault::into_serde_or_default(&ret).unwrap()"@,
        _ => "ret.into_serde().unwrap()"@,
    }
}

/// The callable that applies the JS function `f` to the arguments of a
/// call of type `g`.
pub open spec fn applying_closure(table: &TypeTable, g: TypeRef) -> Seq<char> {
    let proto = FnProto::FnRef(&g);
    "std::rc::Rc::new(move |"@ + param_list(table, spec_params(proto), ParamText::RustNamed) + "| {\n"@
        + param_concat(table, spec_args(proto), ParamText::LetJsValue) + "let args = js_sys::Array::new();\n"@
        + param_concat(table, spec_params(proto), ParamText::PushArg)
        + "let ret = f.apply(&JsValue::null(), &args)?;\nOk("@ + raw_return(table, spec_return(proto)) + ")\n})"@
}

/// The custom deserializer `de` of the callable field `rn`: it reads a JS
/// function and makes a callable that applies it to its arguments.
pub open spec fn deserializer_text(table: &TypeTable, de: Seq<char>, rn: Seq<char>, owned: Seq<char>, g: TypeRef) -> Seq<char> {
    "#[allow(non_snake_case)]\nfn "@ + de + "<'de, D>(deserializer: D) -> std::result::Result<"@ + owned
        + ", D::Error>\nwhere\nD: serde::de::Deserializer<'de>,\n{\nlet jsv: JsValue = ts_bindgen_rt::deserialize_as_jsvalue(deserializer)?;\nlet "@
        + rn + ": Option<&js_sys::Function> = wasm_bindgen::JsCast::dyn_ref(&jsv);\nOk("@ + rn
        + ".map(|f| {\nlet f = f.clone();\n"@ + applying_closure(table, g) + " as "@ + owned
        + "\n})\n.ok_or_else(|| ts_bindgen_rt::jsvalue_serde::Error::InvalidType(\"expected function\".to_string()))\n.map_err(serde::de::Error::custom)?)\n}\n"@
}

fn push_forwarding_closure(out: &mut Vec<char>, table: &TypeTable, rn: &str, g: &TypeRef)
    ensures
        final(out)@ == old(out)@ + forwarding_closure(table, rn@, *g),
{
    let ghost start = out@;
    let proto = FnProto::FnRef(g);
    let ps = proto.params();
    let args = proto.args();
    let mut rt: Vec<char> = Vec::new();
    push_result_text(&mut rt, table, proto.return_type(), Position::JsParam);
    push_str(out, "Closure::wrap(Box::new(move |");
    push_param_list(out, table, &ps, ParamText::JsNamed);
    push_str(out, "| -> ");
    push_chars(out, &rt);
    push_str(out, " {\n");
    push_str(out, rn);
    push_str(out, "(");
    push_param_list(out, table, &args, ParamText::Name);
    push_str(out, ")\n}) as Box<dyn Fn(");
    push_param_list(out, table, &ps, ParamText::JsUnnamed);
    push_str(out, ") -> ");
    push_chars(out, &rt);
    push_str(out, ">)");
    assert(out@ =~= start + forwarding_closure(table, rn@, *g));
}

fn push_applying_closure(out: &mut Vec<char>, table: &TypeTable, g: &TypeRef)
    ensures
        final(out)@ == old(out)@ + applying_closure(table, *g),
{
    let ghost start = out@;
    let proto = FnProto::FnRef(g);
    let ps = proto.params();
    let args = proto.args();
    push_str(out, "std::rc::Rc::new(move |");
    push_param_list(out, table, &ps, ParamText::RustNamed);
    push_str(out, "| {\n");
    push_param_concat(out, table, &args, ParamText::LetJsValue);
    push_str(out, "let args = js_sys::Array::new();\n");
    push_param_concat(out, table, &ps, ParamText::PushArg);
    push_str(out, "let ret = f.apply(&JsValue::null(), &args)?;\nOk(");
    match ret_serialization_of(table, proto.return_type()) {
        SerializationType::SerdeJson => push_str(out, "ts_bindgen_rt::IntoSerdeOrDefault::into_serde_or_default(&ret).unwrap()"),
        _ => push_str(out, "ret.into_serde().unwrap()"),
    }
    push_str(out, ")\n})");
    assert(out@ =~= start + applying_closure(table, *g));
}

pub fn push_serializer(out: &mut Vec<char>, table: &TypeTable, ser: &str, rn: &str, owned: &str, g: &TypeRef)
    ensures
        final(out)@ == old(out)@ + serializer_text(table, ser@, rn@, owned@, *g),
{
    let ghost start = out@;
    push_str(out, "#[allow(non_snake_case)]\nfn ");
    push_str(out, ser);
    push_str(out, "<S>(");
    push_str(out, rn);
    push_str(out, ": &");
    push_str(out, owned);
    push_str(out, ", serializer: S) -> std::result::Result<S::Ok, S::Error>\nwhere\nS: serde::ser::Serializer,\n{\nlet ");
    push_str(out, rn);
    push_str(out, " = ");
    push_str(out, rn);
    push_str(out, ".clone();\nlet ");
    push_str(out, rn);
    push_str(out, " = ");
    push_forwarding_closure(out, table, rn, g);
    push_str(out, ";\nlet jsv = ts_bindgen_rt::serialize_as_jsvalue(serializer, &");
    push_str(out, rn);
    push_str(out, ".into_js_value());\njsv\n}\n");
    assert(out@ =~= start + serializer_text(table, ser@, rn@, owned@, *g));
}

pub fn push_deserializer(out: &mut Vec<char>, table: &TypeTable, de: &str, rn: &str, owned: &str, g: &TypeRef)
    ensures
        final(out)@ == old(out)@ + deserializer_text(table, de@, rn@, owned@, *g),
{
    let ghost start = out@;
    push_str(out, "#[allow(non_snake_case)]\nfn ");
    push_str(out, de);
    push_str(out, "<'de, D>(deserializer: D) -> std::result::Result<");
    push_str(out, owned);
    push_str(out, ", D::Error>\nwhere\nD: serde::de::Deserializer<'de>,\n{\nlet jsv: JsValue = ts_bindgen_rt::deserialize_as_jsvalue(deserializer)?;\nlet ");
    push_str(out, rn);
    push_str(out, ": Option<&js_sys::Function> = wasm_bindgen::JsCast::dyn_ref(&jsv);\nOk(");
    push_str(out, rn);
    push_str(out, ".map(|f| {\nlet f = f.clone();\n");
    push_applying_closure(out, table, g);
    push_str(out, " as ");
    push_str(out, owned);
    push_str(out, "\n})\n.ok_or_else(|| ts_bindgen_rt::jsvalue_serde::Error::InvalidType(\"expected function\".to_string()))\n.map_err(serde::de::Error::custom)?)\n}\n");
    assert(out@ =~= start + deserializer_text(table, de@, rn@, owned@, *g));
}


/// The type of a parameter or result exposed to JS.
pub fn exposed_to_js_param_type(table: &TypeTable, r: &TypeRef) -> (s: String)
    ensures
        s@ == spec_text(table, *r, Position::JsParam, depth()),
{
    let mut t: Vec<char> = Vec::new();
    push_text(&mut t, table, r, Position::JsParam, usize::MAX);
    string_of(&t)
}

/// The result type of a function exposed to JS: the JS error beside it.
pub fn exposed_to_js_return_type(table: &TypeTable, r: &TypeRef) -> (s: String)
    ensures
        s@ == result_text(table, Some(*r), Position::JsParam),
{
    let mut t: Vec<char> = Vec::new();
    push_result_text(&mut t, table, Some(r), Position::JsParam);
    string_of(&t)
}

/// The type of a parameter of a function callable from the target
/// language.
pub fn exposed_to_rust_param_type(table: &TypeTable, r: &TypeRef) -> (s: String)
    ensures
        s@ == spec_text(table, *r, Position::RustParam, depth()),
{
    let mut t: Vec<char> = Vec::new();
    push_text(&mut t, table, r, Position::RustParam, usize::MAX);
    string_of(&t)
}

/// The result type of a function callable from the target language, owned.
pub fn exposed_to_rust_return_type(table: &TypeTable, r: &TypeRef) -> (s: String)
    ensures
        s@ == spec_text(table, *r, Position::Owned, depth()),
{
    let mut t: Vec<char> = Vec::new();
    push_text(&mut t, table, r, Position::Owned, usize::MAX);
    string_of(&t)
}

/// The conversion of `value`, a JS value returned by a call, to the
/// target type of `ret`.
pub open spec fn raw_return_text(table: &TypeTable, ret: TypeRef, value: Seq<char>) -> Seq<char> {
    match spec_serialization_type(table, &ret) {
        SerializationType::SerdeJson => "ts_bindgen_rt::IntoSerdeOrDefault::into_serde_or_default(&"@ + value
            + ").unwrap()"@,
        _ => value + ".into_serde().unwrap()"@,
    }
}

/// Renders the conversion of `value`, a JS value returned by a call, to the
/// target type of `ret`.
pub fn render_raw_return_to_js(table: &TypeTable, ret: &TypeRef, value: &str) -> (s: String)
    ensures
        s@ == raw_return_text(table, *ret, value@),
{
    let mut t: Vec<char> = Vec::new();
    match serialization_type(table, ret) {
        SerializationType::SerdeJson => {
            push_str(&mut t, "ts_bindgen_rt::IntoSerdeOrDefault::into_serde_or_default(&");
            push_str(&mut t, value);
            push_str(&mut t, ").unwrap()");
        },
        _ => {
            push_str(&mut t, value);
            push_str(&mut t, ".into_serde().unwrap()");
        },
    }
    let s = string_of(&t);
    assert(s@ =~= raw_return_text(table, *ret, value@));
    s
}

}
