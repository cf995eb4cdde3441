//! Resolution of references to the types they name, and the classifications
//! that the emitter reads from a resolved type.
use crate::ir::{Builtin, IdentView, NamespaceImport, TypeIdent, TypeInfo, TypeRef, TypeTable, ident_eq, spec_lookup};
use vstd::prelude::*;

verus! {

/// Where a reference leads: a builtin, or a type of the table by index.
#[derive(Clone, Copy, PartialEq, Eq, Structural, Debug)]
pub enum Resolved {
    Builtin(Builtin),
    At(usize),
}

/// Finds the first type of `file` named `name`.
pub fn lookup(table: &TypeTable, file: usize, name: &TypeIdent) -> (r: Option<usize>)
    ensures
        match spec_lookup(table, file, name@) {
            Some(i) => r == Some(i as usize),
            None => r is None,
        },
{
    let mut i: usize = 0;
    while i < table.types.len()
        invariant
            i <= table.types@.len(),
            forall|j: int|
                0 <= j < i ==> !(table.types@[j].file == file && table.types@[j].name@ == name@),
        decreases table.types@.len() - i,
    {
        if table.types[i].file == file && ident_eq(&table.types[i].name, name) {
            let ghost k = spec_lookup(table, file, name@);
            assert(k is Some);
            let ghost c = k->0;
            assert(c == i) by {
                if c < i {
                } else if c > i {
                }
            }
            return Some(i);
        }
        i += 1;
    }
    None
}

/// The name that a default import reads.
pub open spec fn default_name() -> IdentView {
    IdentView::Local(seq!['d', 'e', 'f', 'a', 'u', 'l', 't'])
}

/// One step along a forwarding chain: where a reference leads first.
pub open spec fn spec_step(table: &TypeTable, r: &TypeRef) -> Option<Resolved> {
    match r.referent {
        TypeIdent::Builtin(b) => Some(Resolved::Builtin(b)),
        _ => match spec_lookup(table, r.file, r.referent@) {
            Some(i) => Some(Resolved::At(i as usize)),
            None => None,
        },
    }
}

/// Follows aliases, references and named or default imports from the type
/// at index `i` to the first type that forwards nowhere, taking at most
/// `fuel` steps.
pub open spec fn spec_follow(table: &TypeTable, i: int, fuel: nat) -> Option<Resolved>
    decreases fuel,
{
    if fuel == 0 || !(0 <= i < table.types@.len()) {
        None
    } else {
        let next = match table.types@[i].info {
            TypeInfo::Alias(t) => Some(spec_step(table, &t)),
            TypeInfo::Ref(t) => Some(spec_step(table, &t)),
            TypeInfo::NamespaceImport(NamespaceImport::Named { src, name }) => Some(
                match spec_lookup(table, src, IdentView::Local(name@)) {
                    Some(j) => Some(Resolved::At(j as usize)),
                    None => None,
                },
            ),
            TypeInfo::NamespaceImport(NamespaceImport::Default { src }) => Some(
                match spec_lookup(table, src, default_name()) {
                    Some(j) => Some(Resolved::At(j as usize)),
                    None => None,
                },
            ),
            _ => None,
        };
        match next {
            None => Some(Resolved::At(i as usize)),
            Some(None) => None,
            Some(Some(Resolved::Builtin(b))) => Some(Resolved::Builtin(b)),
            Some(Some(Resolved::At(j))) => spec_follow(table, j as int, (fuel - 1) as nat),
        }
    }
}

/// Where a reference finally leads. A chain of forwarding names can visit
/// each type at most once, so as many steps as there are types reach its
/// end; a chain that returns to a name it has visited leads nowhere.
pub open spec fn spec_resolve(table: &TypeTable, r: &TypeRef) -> Option<Resolved> {
    match spec_step(table, r) {
        Some(Resolved::At(i)) => spec_follow(table, i as int, table.types@.len()),
        other => other,
    }
}

fn step(table: &TypeTable, r: &TypeRef) -> (res: Option<Resolved>)
    ensures
        res == spec_step(table, r),
{
    match &r.referent {
        TypeIdent::Builtin(b) => Some(Resolved::Builtin(*b)),
        _ => match lookup(table, r.file, &r.referent) {
            Some(i) => Some(Resolved::At(i)),
            None => None,
        },
    }
}

fn follow(table: &TypeTable, i: usize, fuel: usize) -> (res: Option<Resolved>)
    ensures
        res == spec_follow(table, i as int, fuel as nat),
    decreases fuel,
{
    if fuel == 0 || i >= table.types.len() {
        return None;
    }
    let next: Option<Option<Resolved>> = match &table.types[i].info {
        TypeInfo::Alias(t) => Some(step(table, t)),
        TypeInfo::Ref(t) => Some(step(table, t)),
        TypeInfo::NamespaceImport(NamespaceImport::Named { src, name }) => {
            let n = TypeIdent::LocalName(name.clone());
            Some(
                match lookup(table, *src, &n) {
                    Some(j) => Some(Resolved::At(j)),
                    None => None,
                },
            )
        },
        TypeInfo::NamespaceImport(NamespaceImport::Default { src }) => {
            let n = TypeIdent::LocalName(crate::ident::string_of(&vec!['d', 'e', 'f', 'a', 'u', 'l', 't']));
            assert(n@ == default_name());
            Some(
                match lookup(table, *src, &n) {
                    Some(j) => Some(Resolved::At(j)),
                    None => None,
                },
            )
        },
        _ => None,
    };
    match next {
        None => Some(Resolved::At(i)),
        Some(None) => None,
        Some(Some(Resolved::Builtin(b))) => Some(Resolved::Builtin(b)),
        Some(Some(Resolved::At(j))) => follow(table, j, fuel - 1),
    }
}

/// Resolves a reference to the first type along its chain of aliases,
/// references and imports that forwards nowhere, or to its builtin.
pub fn resolve_target_type(table: &TypeTable, r: &TypeRef) -> (res: Option<Resolved>)
    ensures
        res == spec_resolve(table, r),
{
    match step(table, r) {
        Some(Resolved::At(i)) => follow(table, i, table.types.len()),
        other => other,
    }
}


/// How a value of a type crosses the boundary to JS.
#[derive(Clone, Copy, PartialEq, Eq, Structural, Debug)]
pub enum SerializationType {
    /// Passed as it is: what the runtime bridges natively.
    Raw,
    /// Passed by reference.
    Ref,
    /// Round-tripped through the runtime's JSON bridge.
    SerdeJson,
    /// A callable, wrapped in a closure.
    Fn,
}

pub open spec fn builtin_serialization(b: Builtin) -> SerializationType {
    match b {
        Builtin::Fn => SerializationType::Fn,
        Builtin::PrimitiveObject | Builtin::Array | Builtin::Optional => SerializationType::SerdeJson,
        _ => SerializationType::Raw,
    }
}

/// A resolved type that the runtime bridges as it is: a raw builtin, a
/// class (an opaque handle) or a literal.
pub open spec fn is_raw_target(table: &TypeTable, res: Option<Resolved>) -> bool {
    match res {
        Some(Resolved::Builtin(b)) => builtin_serialization(b) == SerializationType::Raw,
        Some(Resolved::At(i)) => 0 <= i < table.types@.len() && match table.types@[i as int].info {
            TypeInfo::Class(_) | TypeInfo::LitNumber | TypeInfo::LitString | TypeInfo::LitBoolean => true,
            _ => false,
        },
        None => false,
    }
}

/// An optional whose item the runtime bridges as it is.
pub open spec fn is_raw_optional(table: &TypeTable, r: &TypeRef) -> bool {
    match spec_resolve(table, r) {
        Some(Resolved::Builtin(Builtin::Optional)) => r.referent == TypeIdent::Builtin(Builtin::Optional)
            && r.type_params@.len() == 1 && is_raw_target(table, spec_resolve(table, &r.type_params@[0])),
        Some(Resolved::At(i)) => 0 <= i < table.types@.len() && match table.types@[i as int].info {
            TypeInfo::Optional(t) => is_raw_target(table, spec_resolve(table, &t)),
            _ => false,
        },
        _ => false,
    }
}

/// The serialization strategy of a reference: `Fn` for the builtin callable,
/// `Raw` for what the runtime bridges natively (and optionals of it),
/// `SerdeJson` for everything else, unresolved names included.
#[verifier::opaque]
pub open spec fn spec_serialization_type(table: &TypeTable, r: &TypeRef) -> SerializationType {
    if spec_resolve(table, r) == Some(Resolved::Builtin(Builtin::Fn)) {
        SerializationType::Fn
    } else if is_raw_target(table, spec_resolve(table, r)) || is_raw_optional(table, r) {
        SerializationType::Raw
    } else {
        SerializationType::SerdeJson
    }
}

fn builtin_serialization_of(b: Builtin) -> (r: SerializationType)
    ensures
        r == builtin_serialization(b),
{
    match b {
        Builtin::Fn => SerializationType::Fn,
        Builtin::PrimitiveObject | Builtin::Array | Builtin::Optional => SerializationType::SerdeJson,
        _ => SerializationType::Raw,
    }
}

fn raw_target(table: &TypeTable, res: Option<Resolved>) -> (r: bool)
    ensures
        r == is_raw_target(table, res),
{
    match res {
        Some(Resolved::Builtin(b)) => builtin_serialization_of(b) == SerializationType::Raw,
        Some(Resolved::At(i)) => i < table.types.len() && match &table.types[i].info {
            TypeInfo::Class(_) | TypeInfo::LitNumber | TypeInfo::LitString | TypeInfo::LitBoolean => true,
            _ => false,
        },
        None => false,
    }
}

fn raw_optional(table: &TypeTable, r: &TypeRef) -> (res: bool)
    ensures
        res == is_raw_optional(table, r),
{
    match resolve_target_type(table, r) {
        Some(Resolved::Builtin(Builtin::Optional)) => {
            match &r.referent {
                TypeIdent::Builtin(Builtin::Optional) => {
                    r.type_params.len() == 1 && raw_target(table, resolve_target_type(table, &r.type_params[0]))
                },
                _ => false,
            }
        },
        Some(Resolved::At(i)) => i < table.types.len() && match &table.types[i].info {
            TypeInfo::Optional(t) => raw_target(table, resolve_target_type(table, t)),
            _ => false,
        },
        _ => false,
    }
}

/// Classifies how a value of the referenced type crosses the boundary.
pub fn serialization_type(table: &TypeTable, r: &TypeRef) -> (res: SerializationType)
    ensures
        res == spec_serialization_type(table, r),
{
    proof {
        reveal(spec_serialization_type);
    }
    let target = resolve_target_type(table, r);
    if target == Some(Resolved::Builtin(Builtin::Fn)) {
        SerializationType::Fn
    } else if raw_target(table, target) || raw_optional(table, r) {
        SerializationType::Raw
    } else {
        SerializationType::SerdeJson
    }
}


/// The fuel that bounds a walk through the table: one step per type, and
/// one more.
pub open spec fn table_fuel(table: &TypeTable) -> nat {
    table.types@.len() + 1
}

/// The members of the union that a reference resolves to, if it resolves
/// to one.
pub open spec fn resolved_union(table: &TypeTable, r: &TypeRef) -> Option<Vec<TypeRef>> {
    match spec_resolve(table, r) {
        Some(Resolved::At(i)) => if i < table.types@.len() {
            match table.types@[i as int].info {
                TypeInfo::Union(ms) => Some(ms),
                _ => None,
            }
        } else {
            None
        },
        _ => None,
    }
}

fn union_members<'a>(table: &'a TypeTable, r: &TypeRef) -> (res: Option<&'a Vec<TypeRef>>)
    ensures
        match res {
            Some(v) => resolved_union(table, r) == Some(*v),
            None => resolved_union(table, r) is None,
        },
{
    match resolve_target_type(table, r) {
        Some(Resolved::At(i)) => {
            if i < table.types.len() {
                match &table.types[i].info {
                    TypeInfo::Union(ms) => Some(ms),
                    _ => None,
                }
            } else {
                None
            }
        },
        _ => None,
    }
}

/// A type with no values: `null`, `undefined`, `void`, or a union all of
/// whose members have none.
pub open spec fn spec_uninhabited(table: &TypeTable, r: TypeRef, fuel: nat) -> bool
    decreases fuel, 0nat,
{
    match r.referent {
        TypeIdent::Builtin(b) => b == Builtin::PrimitiveNull || b == Builtin::PrimitiveUndefined || b
            == Builtin::PrimitiveVoid,
        _ => if fuel == 0 {
            false
        } else {
            match resolved_union(table, &r) {
                Some(ms) => all_uninhabited(table, ms@, (fuel - 1) as nat),
                None => false,
            }
        },
    }
}

/// Every member of the list has no values.
pub open spec fn all_uninhabited(table: &TypeTable, ms: Seq<TypeRef>, fuel: nat) -> bool
    decreases fuel, ms.len(),
{
    if ms.len() == 0 {
        true
    } else {
        all_uninhabited(table, ms.drop_last(), fuel) && spec_uninhabited(table, ms.last(), fuel)
    }
}

fn uninhabited_fuel(table: &TypeTable, r: &TypeRef, fuel: usize) -> (res: bool)
    ensures
        res == spec_uninhabited(table, *r, fuel as nat),
    decreases fuel,
{
    match &r.referent {
        TypeIdent::Builtin(b) => {
            return *b == Builtin::PrimitiveNull || *b == Builtin::PrimitiveUndefined || *b
                == Builtin::PrimitiveVoid;
        },
        _ => {},
    }
    if fuel == 0 {
        return false;
    }
    match union_members(table, r) {
        Some(ms) => {
            let mut all = true;
            let mut k: usize = 0;
            while k < ms.len()
                invariant
                    k <= ms@.len(),
                    fuel > 0,
                    all == all_uninhabited(table, ms@.subrange(0, k as int), (fuel - 1) as nat),
                decreases ms@.len() - k,
            {
                let one = uninhabited_fuel(table, &ms[k], fuel - 1);
                assert(ms@.subrange(0, k + 1).drop_last() =~= ms@.subrange(0, k as int));
                all = all && one;
                k += 1;
            }
            assert(ms@.subrange(0, ms@.len() as int) =~= ms@);
            all
        },
        None => false,
    }
}

/// Whether the referenced type has no values.
pub fn is_uninhabited(table: &TypeTable, r: &TypeRef) -> (res: bool)
    requires
        table.types@.len() < usize::MAX,
    ensures
        res == spec_uninhabited(table, *r, table_fuel(table)),
{
    uninhabited_fuel(table, r, table.types.len() + 1)
}


/// The shape of the type that a reference resolves to, if it resolves to a
/// type of the table.
pub open spec fn resolved_info(table: &TypeTable, r: &TypeRef) -> Option<TypeInfo> {
    match spec_resolve(table, r) {
        Some(Resolved::At(i)) => if i < table.types@.len() {
            Some(table.types@[i as int].info)
        } else {
            None
        },
        _ => None,
    }
}

fn resolved_info_of<'a>(table: &'a TypeTable, r: &TypeRef) -> (res: Option<&'a TypeInfo>)
    ensures
        match res {
            Some(v) => resolved_info(table, r) == Some(*v),
            None => resolved_info(table, r) is None,
        },
{
    match resolve_target_type(table, r) {
        Some(Resolved::At(i)) => {
            if i < table.types.len() {
                Some(&table.types[i].info)
            } else {
                None
            }
        },
        _ => None,
    }
}

/// A type that may be `undefined` on its own: `undefined`, `any`, `object`,
/// `void`, an optional, or a union with such a member; nothing else.
pub open spec fn spec_potentially_undefined(table: &TypeTable, r: TypeRef, fuel: nat) -> bool
    decreases fuel, 0nat,
{
    match spec_resolve(table, &r) {
        Some(Resolved::Builtin(b)) => b == Builtin::PrimitiveUndefined || b == Builtin::PrimitiveAny
            || b == Builtin::PrimitiveObject || b == Builtin::PrimitiveVoid || b == Builtin::Optional,
        _ => fuel > 0 && match resolved_info(table, &r) {
            Some(TypeInfo::Optional(_)) => true,
            Some(TypeInfo::Union(ms)) => any_potentially_undefined(table, ms@, (fuel - 1) as nat),
            _ => false,
        },
    }
}

/// Some member of the list may be `undefined`.
pub open spec fn any_potentially_undefined(table: &TypeTable, ms: Seq<TypeRef>, fuel: nat) -> bool
    decreases fuel, ms.len(),
{
    if ms.len() == 0 {
        false
    } else {
        any_potentially_undefined(table, ms.drop_last(), fuel) || spec_potentially_undefined(
            table,
            ms.last(),
            fuel,
        )
    }
}

fn any_potentially_undefined_fuel(table: &TypeTable, ms: &Vec<TypeRef>, fuel: usize) -> (res: bool)
    ensures
        res == any_potentially_undefined(table, ms@, fuel as nat),
    decreases fuel, 2nat,
{
    let mut any = false;
    let mut k: usize = 0;
    while k < ms.len()
        invariant
            k <= ms@.len(),
            any == any_potentially_undefined(table, ms@.subrange(0, k as int), fuel as nat),
        decreases ms@.len() - k,
    {
        let one = potentially_undefined_fuel(table, &ms[k], fuel);
        assert(ms@.subrange(0, k + 1).drop_last() =~= ms@.subrange(0, k as int));
        any = any || one;
        k += 1;
    }
    assert(ms@.subrange(0, ms@.len() as int) =~= ms@);
    any
}

fn potentially_undefined_fuel(table: &TypeTable, r: &TypeRef, fuel: usize) -> (res: bool)
    ensures
        res == spec_potentially_undefined(table, *r, fuel as nat),
    decreases fuel, 1nat,
{
    match resolve_target_type(table, r) {
        Some(Resolved::Builtin(b)) => {
            return b == Builtin::PrimitiveUndefined || b == Builtin::PrimitiveAny || b
                == Builtin::PrimitiveObject || b == Builtin::PrimitiveVoid || b == Builtin::Optional;
        },
        _ => {},
    }
    if fuel == 0 {
        return false;
    }
    match resolved_info_of(table, r) {
        Some(TypeInfo::Optional(_)) => true,
        Some(TypeInfo::Union(ms)) => any_potentially_undefined_fuel(table, ms, fuel - 1),
        _ => false,
    }
}

/// Whether the referenced type may be `undefined` on its own.
pub fn is_potentially_undefined(table: &TypeTable, r: &TypeRef) -> (res: bool)
    requires
        table.types@.len() < usize::MAX,
    ensures
        res == spec_potentially_undefined(table, *r, table_fuel(table)),
{
    potentially_undefined_fuel(table, r, table.types.len() + 1)
}


pub open spec fn nat_max(a: nat, b: nat) -> nat {
    if a >= b {
        a
    } else {
        b
    }
}

pub open spec fn nat_min(a: nat, b: nat) -> nat {
    if a <= b {
        a
    } else {
        b
    }
}

/// How many fields a value of a type carries, for ordering the cases of a
/// union: an interface its fields (the most there can be if it has an index
/// signature), an enum its members, a tuple its items, a mapped type the
/// most there can be, a union its largest member, an intersection its
/// smallest, an optional its item, a class its members and those of its
/// super-class; builtins and everything else none.
pub open spec fn spec_field_count(table: &TypeTable, r: TypeRef, fuel: nat) -> nat
    decreases fuel, 0nat,
{
    if fuel == 0 {
        0
    } else {
        match resolved_info(table, &r) {
            Some(TypeInfo::Interface(i)) => if i.indexer is Some {
                usize::MAX as nat
            } else {
                i.fields@.len()
            },
            Some(TypeInfo::Enum(ms)) => ms@.len(),
            Some(TypeInfo::Tuple(ms)) => ms@.len(),
            Some(TypeInfo::Mapped(_)) => usize::MAX as nat,
            Some(TypeInfo::Union(ms)) => max_field_count(table, ms@, (fuel - 1) as nat),
            Some(TypeInfo::Intersection(ms)) => min_field_count(table, ms@, (fuel - 1) as nat),
            Some(TypeInfo::Optional(t)) => spec_field_count(table, t, (fuel - 1) as nat),
            Some(TypeInfo::Class(c)) => nat_min(
                usize::MAX as nat,
                c.members@.len() + match c.super_class {
                    Some(sup) => spec_field_count(table, sup, (fuel - 1) as nat),
                    None => 0,
                },
            ),
            _ => 0,
        }
    }
}

/// The largest field count among the members, 0 for none.
pub open spec fn max_field_count(table: &TypeTable, ms: Seq<TypeRef>, fuel: nat) -> nat
    decreases fuel, ms.len(),
{
    if ms.len() == 0 {
        0
    } else {
        nat_max(max_field_count(table, ms.drop_last(), fuel), spec_field_count(table, ms.last(), fuel))
    }
}

/// The smallest field count among the members, 0 for none.
pub open spec fn min_field_count(table: &TypeTable, ms: Seq<TypeRef>, fuel: nat) -> nat
    decreases fuel, ms.len(),
{
    if ms.len() == 0 {
        0
    } else if ms.len() == 1 {
        spec_field_count(table, ms[0], fuel)
    } else {
        nat_min(min_field_count(table, ms.drop_last(), fuel), spec_field_count(table, ms.last(), fuel))
    }
}

fn max_field_count_fuel(table: &TypeTable, ms: &Vec<TypeRef>, fuel: usize) -> (res: usize)
    ensures
        res as nat == max_field_count(table, ms@, fuel as nat),
    decreases fuel, 2nat,
{
    let mut best: usize = 0;
    let mut k: usize = 0;
    while k < ms.len()
        invariant
            k <= ms@.len(),
            best as nat == max_field_count(table, ms@.subrange(0, k as int), fuel as nat),
        decreases ms@.len() - k,
    {
        let one = field_count_fuel(table, &ms[k], fuel);
        assert(ms@.subrange(0, k + 1).drop_last() =~= ms@.subrange(0, k as int));
        if one > best {
            best = one;
        }
        k += 1;
    }
    assert(ms@.subrange(0, ms@.len() as int) =~= ms@);
    best
}

fn min_field_count_fuel(table: &TypeTable, ms: &Vec<TypeRef>, fuel: usize) -> (res: usize)
    ensures
        res as nat == min_field_count(table, ms@, fuel as nat),
    decreases fuel, 2nat,
{
    if ms.len() == 0 {
        return 0;
    }
    let mut best: usize = field_count_fuel(table, &ms[0], fuel);
    assert(ms@.subrange(0, 1) =~= seq![ms@[0]]);
    let mut k: usize = 1;
    while k < ms.len()
        invariant
            1 <= k <= ms@.len(),
            best as nat == min_field_count(table, ms@.subrange(0, k as int), fuel as nat),
        decreases ms@.len() - k,
    {
        let one = field_count_fuel(table, &ms[k], fuel);
        assert(ms@.subrange(0, k + 1).drop_last() =~= ms@.subrange(0, k as int));
        if one < best {
            best = one;
        }
        k += 1;
    }
    assert(ms@.subrange(0, ms@.len() as int) =~= ms@);
    best
}

fn field_count_fuel(table: &TypeTable, r: &TypeRef, fuel: usize) -> (res: usize)
    ensures
        res as nat == spec_field_count(table, *r, fuel as nat),
    decreases fuel, 1nat,
{
    if fuel == 0 {
        return 0;
    }
    match resolved_info_of(table, r) {
        Some(TypeInfo::Interface(i)) => {
            if i.indexer.is_some() {
                usize::MAX
            } else {
                i.fields.len()
            }
        },
        Some(TypeInfo::Enum(ms)) => ms.len(),
        Some(TypeInfo::Tuple(ms)) => ms.len(),
        Some(TypeInfo::Mapped(_)) => usize::MAX,
        Some(TypeInfo::Union(ms)) => max_field_count_fuel(table, ms, fuel - 1),
        Some(TypeInfo::Intersection(ms)) => min_field_count_fuel(table, ms, fuel - 1),
        Some(TypeInfo::Optional(t)) => field_count_fuel(table, t, fuel - 1),
        Some(TypeInfo::Class(c)) => {
            let sup = match &c.super_class {
                Some(s) => field_count_fuel(table, s, fuel - 1),
                None => 0,
            };
            let n = c.members.len();
            if n > usize::MAX - sup {
                usize::MAX
            } else {
                n + sup
            }
        },
        _ => 0,
    }
}

/// The field count of the referenced type.
pub fn get_field_count(table: &TypeTable, r: &TypeRef) -> (res: usize)
    requires
        table.types@.len() < usize::MAX,
    ensures
        res as nat == spec_field_count(table, *r, table_fuel(table)),
{
    field_count_fuel(table, r, table.types.len() + 1)
}

}
