//! Generic substitution: type environments that bind the type parameters
//! of an inherited interface to the arguments it is extended with, and
//! the text of a type under such an environment.
use crate::ident::{string_of, strings_view};
use crate::ir::{Builtin, TypeIdent, TypeParamConfig, TypeRef, TypeTable};
use crate::project::{Position, name_text, push_name_text, push_str, fn_params};
use crate::resolve::{SerializationType, serialization_type, spec_serialization_type};
use vstd::prelude::*;

verus! {

/// Bindings of type parameter names to the text of their arguments; a
/// later binding hides an earlier one of the same name.
pub type Env = Seq<(Seq<char>, Seq<char>)>;

pub open spec fn env_lookup(env: Env, n: Seq<char>) -> Option<Seq<char>>
    decreases env.len(),
{
    if env.len() == 0 {
        None
    } else if env.last().0 == n {
        Some(env.last().1)
    } else {
        env_lookup(env.drop_last(), n)
    }
}

/// A type environment held by the emitter.
pub struct TypeEnv {
    pub names: Vec<String>,
    pub texts: Vec<String>,
}

impl View for TypeEnv {
    type V = Env;

    open spec fn view(&self) -> Env {
        Seq::new(
            if self.names@.len() <= self.texts@.len() { self.names@.len() } else { self.texts@.len() },
            |i: int| (self.names@[i]@, self.texts@[i]@),
        )
    }
}

impl TypeEnv {
    /// The empty environment.
    pub fn empty() -> (r: TypeEnv)
        ensures
            r@ == Seq::<(Seq<char>, Seq<char>)>::empty(),
    {
        let r = TypeEnv { names: Vec::new(), texts: Vec::new() };
        assert(r@ =~= Seq::<(Seq<char>, Seq<char>)>::empty());
        r
    }

    pub fn copy(&self) -> (r: TypeEnv)
        ensures
            r@ == self@,
    {
        let names = self.names.clone();
        let texts = self.texts.clone();
        let r = TypeEnv { names, texts };
        assert(r@ =~= self@);
        r
    }

    /// The text bound to `n`, if any.
    pub fn lookup(&self, n: &String) -> (r: Option<String>)
        ensures
            match r {
                Some(t) => env_lookup(self@, n@) == Some(t@),
                None => env_lookup(self@, n@) is None,
            },
    {
        let len = if self.names.len() <= self.texts.len() { self.names.len() } else { self.texts.len() };
        let ghost e = self@;
        let mut i: usize = len;
        assert(e.subrange(0, len as int) =~= e);
        while i > 0
            invariant
                i <= len,
                len == e.len(),
                len <= self.names@.len(),
                len <= self.texts@.len(),
                e == self@,
                env_lookup(e, n@) == env_lookup(e.subrange(0, i as int), n@),
            decreases i,
        {
            let ghost sub = e.subrange(0, i as int);
            assert(sub.drop_last() =~= e.subrange(0, i - 1));
            assert(sub.last() == (self.names@[i - 1]@, self.texts@[i - 1]@));
            if self.names[i - 1] == *n {
                return Some(self.texts[i - 1].clone());
            }
            i -= 1;
        }
        None
    }

    /// The environment with one more binding.
    pub fn bind(&mut self, n: String, t: String)
        ensures
            final(self)@ == old(self)@.push((n@, t@)),
    {
        let len = if self.names.len() <= self.texts.len() { self.names.len() } else { self.texts.len() };
        self.names.truncate(len);
        self.texts.truncate(len);
        let ghost before = self@;
        assert(before =~= old(self)@);
        self.names.push(n);
        self.texts.push(t);
        assert(self@ =~= before.push((n@, t@)));
    }
}

/// The text of a type reference in a position, with the type parameters
/// that `env` binds replaced by their arguments.
pub open spec fn spec_text_in(table: &TypeTable, env: Env, r: TypeRef, pos: Position, fuel: nat) -> Seq<char>
    decreases fuel, 0nat,
{
    if fuel == 0 {
        Seq::empty()
    } else {
        let f = (fuel - 1) as nat;
        match pos {
            Position::Plain => match r.referent {
                TypeIdent::Builtin(Builtin::Fn) => "dyn Fn("@ + spec_text_in_list(table, env, fn_params(r), Position::InnerParam, f)
                    + ") -> Result<"@ + (if r.type_params@.len() == 0 {
                    "()"@
                } else {
                    spec_text_in(table, env, r.type_params@.last(), Position::Owned, f)
                }) + ", JsValue>"@,
                TypeIdent::Builtin(Builtin::PrimitiveVoid) => "()"@,
                TypeIdent::LocalName(n) => match env_lookup(env, n@) {
                    Some(t) => t,
                    None => name_text(r.referent) + args_in(table, env, r, f),
                },
                _ => name_text(r.referent) + args_in(table, env, r, f),
            },
            Position::Owned => if r.referent == TypeIdent::Builtin(Builtin::Fn) {
                "std::rc::Rc<"@ + spec_text_in(table, env, r, Position::Plain, f) + ">"@
            } else {
                spec_text_in(table, env, r, Position::Plain, f)
            },
            Position::RustParam => match spec_serialization_type(table, &r) {
                SerializationType::Ref => "&"@ + spec_text_in(table, env, r, Position::Plain, f),
                SerializationType::Fn => "&'static "@ + spec_text_in(table, env, r, Position::Plain, f),
                _ => spec_text_in(table, env, r, Position::Plain, f),
            },
            _ => match spec_serialization_type(table, &r) {
                SerializationType::Ref => "&"@ + spec_text_in(table, env, r, Position::Plain, f),
                _ => spec_text_in(table, env, r, Position::Plain, f),
            },
        }
    }
}

/// The type arguments of `r` in angle brackets, or nothing.
pub open spec fn args_in(table: &TypeTable, env: Env, r: TypeRef, f: nat) -> Seq<char>
    decreases f, r.type_params@.len() + 3,
{
    if r.type_params@.len() == 0 {
        Seq::empty()
    } else {
        "<"@ + spec_text_in_list(table, env, r.type_params@, Position::Plain, f) + ">"@
    }
}

pub open spec fn spec_text_in_list(table: &TypeTable, env: Env, rs: Seq<TypeRef>, pos: Position, fuel: nat) -> Seq<char>
    decreases fuel, rs.len() + 2,
{
    if rs.len() == 0 {
        Seq::empty()
    } else if rs.len() == 1 {
        spec_text_in(table, env, rs[0], pos, fuel)
    } else {
        spec_text_in_list(table, env, rs.drop_last(), pos, fuel) + ", "@ + spec_text_in(table, env, rs.last(), pos, fuel)
    }
}

fn push_text_in_list(out: &mut Vec<char>, table: &TypeTable, env: &TypeEnv, rs: &Vec<TypeRef>, n: usize, pos: Position, fuel: usize)
    requires
        n <= rs@.len(),
    ensures
        final(out)@ == old(out)@ + spec_text_in_list(table, env@, rs@.subrange(0, n as int), pos, fuel as nat),
    decreases fuel, 2nat,
{
    let ghost start = out@;
    let mut k: usize = 0;
    assert(spec_text_in_list(table, env@, rs@.subrange(0, 0), pos, fuel as nat) =~= Seq::<char>::empty());
    assert(out@ =~= start + Seq::<char>::empty());
    while k < n
        invariant
            n <= rs@.len(),
            k <= n,
            out@ == start + spec_text_in_list(table, env@, rs@.subrange(0, k as int), pos, fuel as nat),
        decreases n - k,
    {
        let ghost sub = rs@.subrange(0, k + 1);
        assert(sub.drop_last() =~= rs@.subrange(0, k as int));
        assert(sub.last() == rs@[k as int]);
        if k > 0 {
            push_str(out, ", ");
        }
        push_text_in(out, table, env, &rs[k], pos, fuel);
        proof {
            if k == 0 {
                assert(sub[0] == rs@[0]);
                assert(out@ =~= start + spec_text_in_list(table, env@, sub, pos, fuel as nat));
            } else {
                assert(out@ =~= start + spec_text_in_list(table, env@, sub, pos, fuel as nat));
            }
        }
        k += 1;
    }
}

fn push_args_in(out: &mut Vec<char>, table: &TypeTable, env: &TypeEnv, r: &TypeRef, f: usize)
    ensures
        final(out)@ == old(out)@ + args_in(table, env@, *r, f as nat),
    decreases f, 3nat,
{
    let ghost start = out@;
    if r.type_params.len() == 0 {
        assert(out@ =~= start + args_in(table, env@, *r, f as nat));
    } else {
        push_str(out, "<");
        assert(r.type_params@.subrange(0, r.type_params@.len() as int) =~= r.type_params@);
        push_text_in_list(out, table, env, &r.type_params, r.type_params.len(), Position::Plain, f);
        push_str(out, ">");
        assert(out@ =~= start + args_in(table, env@, *r, f as nat));
    }
}

fn push_plain_in(out: &mut Vec<char>, table: &TypeTable, env: &TypeEnv, r: &TypeRef, fuel: usize)
    requires
        fuel > 0,
    ensures
        final(out)@ == old(out)@ + spec_text_in(table, env@, *r, Position::Plain, fuel as nat),
    decreases fuel, 0nat,
{
    let f = fuel - 1;
    let ghost start = out@;
    match &r.referent {
        TypeIdent::Builtin(Builtin::Fn) => {
            push_str(out, "dyn Fn(");
            let n = if r.type_params.len() == 0 { 0 } else { r.type_params.len() - 1 };
            assert(r.type_params@.subrange(0, n as int) =~= fn_params(*r));
            push_text_in_list(out, table, env, &r.type_params, n, Position::InnerParam, f);
            push_str(out, ") -> Result<");
            if r.type_params.len() == 0 {
                push_str(out, "()");
            } else {
                push_text_in(out, table, env, &r.type_params[r.type_params.len() - 1], Position::Owned, f);
            }
            push_str(out, ", JsValue>");
        },
        TypeIdent::Builtin(Builtin::PrimitiveVoid) => {
            push_str(out, "()");
        },
        TypeIdent::LocalName(n) => {
            match env.lookup(n) {
                Some(t) => push_str(out, t.as_str()),
                None => {
                    push_name_text(out, &r.referent);
                    push_args_in(out, table, env, r, f);
                },
            }
        },
        _ => {
            push_name_text(out, &r.referent);
            push_args_in(out, table, env, r, f);
        },
    }
    assert(out@ =~= start + spec_text_in(table, env@, *r, Position::Plain, fuel as nat));
}

/// Appends the text of `r` in position `pos` under the environment `env`.
pub fn push_text_in(out: &mut Vec<char>, table: &TypeTable, env: &TypeEnv, r: &TypeRef, pos: Position, fuel: usize)
    ensures
        final(out)@ == old(out)@ + spec_text_in(table, env@, *r, pos, fuel as nat),
    decreases fuel, 1nat,
{
    let ghost start = out@;
    if fuel == 0 {
        assert(out@ =~= start + spec_text_in(table, env@, *r, pos, fuel as nat));
        return;
    }
    let f = fuel - 1;
    match pos {
        Position::Plain => push_plain_in(out, table, env, r, fuel),
        Position::Owned => {
            match &r.referent {
                TypeIdent::Builtin(Builtin::Fn) => {
                    push_str(out, "std::rc::Rc<");
                    push_text_in(out, table, env, r, Position::Plain, f);
                    push_str(out, ">");
                },
                _ => push_text_in(out, table, env, r, Position::Plain, f),
            }
        },
        Position::RustParam => {
            match serialization_type(table, r) {
                SerializationType::Ref => {
                    push_str(out, "&");
                    push_text_in(out, table, env, r, Position::Plain, f);
                },
                SerializationType::Fn => {
                    push_str(out, "&'static ");
                    push_text_in(out, table, env, r, Position::Plain, f);
                },
                _ => push_text_in(out, table, env, r, Position::Plain, f),
            }
        },
        _ => {
            match serialization_type(table, r) {
                SerializationType::Ref => {
                    push_str(out, "&");
                    push_text_in(out, table, env, r, Position::Plain, f);
                },
                _ => push_text_in(out, table, env, r, Position::Plain, f),
            }
        },
    }
    assert(out@ =~= start + spec_text_in(table, env@, *r, pos, fuel as nat));
}

/// The environment of an interface with type parameters `ps` reached
/// through a reference whose type arguments are `args`: `env` extended
/// with each parameter bound to its argument's text under `env`, or to its
/// default's where the argument is missing, or to itself where neither is.
pub open spec fn bind_params(table: &TypeTable, env: Env, ps: Seq<TypeParamConfig>, args: Seq<TypeRef>) -> Env {
    env + Seq::new(
        ps.len(),
        |i: int|
            (
                ps[i].name@,
                if i < args.len() {
                    spec_text_in(table, env, args[i], Position::Plain, crate::funcs::depth())
                } else {
                    match ps[i].default_type_arg {
                        Some(d) => spec_text_in(table, env, d, Position::Plain, crate::funcs::depth()),
                        None => name_text(TypeIdent::LocalName(ps[i].name)),
                    }
                },
            ),
    )
}

/// Builds the environment of an interface with type parameters `ps`
/// reached through a reference with type arguments `args`.
pub fn apply_type_params(table: &TypeTable, env: &TypeEnv, ps: &Vec<TypeParamConfig>, args: &Vec<TypeRef>) -> (r: TypeEnv)
    ensures
        r@ == bind_params(table, env@, ps@, args@),
{
    let mut r = env.copy();
    let ghost target = bind_params(table, env@, ps@, args@);
    let mut i: usize = 0;
    while i < ps.len()
        invariant
            i <= ps@.len(),
            target == bind_params(table, env@, ps@, args@),
            r@ == target.subrange(0, (env@.len() + i) as int),
        decreases ps@.len() - i,
    {
        let mut t: Vec<char> = Vec::new();
        if i < args.len() {
            push_text_in(&mut t, table, env, &args[i], Position::Plain, usize::MAX);
        } else {
            match &ps[i].default_type_arg {
                Some(d) => push_text_in(&mut t, table, env, d, Position::Plain, usize::MAX),
                None => {
                    let own = TypeIdent::LocalName(ps[i].name.clone());
                    push_name_text(&mut t, &own);
                },
            }
        }
        let ghost before = r@;
        r.bind(ps[i].name.clone(), string_of(&t));
        assert(target[(env@.len() + i) as int] == (ps@[i as int].name@, t@));
        assert(r@ =~= target.subrange(0, (env@.len() + i + 1) as int));
        i += 1;
    }
    assert(target.subrange(0, (env@.len() + ps@.len()) as int) =~= target);
    r
}

}
