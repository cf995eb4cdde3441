//! Unions: an untagged sum whose cases are tried in order, so the widest
//! members come first and `undefined` comes last.
use crate::ident::{camel_of, sanitize, string_of, to_camel_case_ident};
use crate::ir::{Builtin, TypeIdent, TypeRef, TypeTable};
use crate::project::{Position, push_str, push_text, spec_text};
use crate::resolve::{get_field_count, is_uninhabited, spec_field_count, spec_uninhabited, table_fuel};
use vstd::prelude::*;

verus! {

/// A member that is `undefined` itself.
pub open spec fn is_undefined_member(r: TypeRef) -> bool {
    r.referent == TypeIdent::Builtin(Builtin::PrimitiveUndefined)
}

/// Member `a` comes before member `b`: more fields, or as many and earlier
/// in the source.
pub open spec fn goes_before(keys: Seq<usize>, a: usize, b: usize) -> bool {
    keys[a as int] > keys[b as int] || (keys[a as int] == keys[b as int] && a < b)
}

/// The order of the standard (not `undefined`) members: every one of them
/// once, by field count from most to fewest, ties in source order.
pub open spec fn is_case_order(ms: Seq<TypeRef>, keys: Seq<usize>, order: Seq<usize>, n: int) -> bool {
    &&& forall|t: usize| #[trigger] order.contains(t) <==> (t < n && !is_undefined_member(ms[t as int]))
    &&& forall|i: int, j: int|
        0 <= i < j < order.len() ==> goes_before(keys, #[trigger] order[i], #[trigger] order[j])
}

/// The undefined members in source order.
pub open spec fn is_undefined_order(ms: Seq<TypeRef>, order: Seq<usize>, n: int) -> bool {
    &&& forall|t: usize| #[trigger] order.contains(t) <==> (t < n && is_undefined_member(ms[t as int]))
    &&& forall|i: int, j: int| 0 <= i < j < order.len() ==> #[trigger] order[i] < #[trigger] order[j]
}

/// Orders the members of a union for untagged deserialization: the standard
/// members by field count, most first and ties in source order, then the
/// `undefined` members in source order. `keys` holds each member's field
/// count.
pub fn union_case_order(ms: &Vec<TypeRef>, keys: &Vec<usize>) -> (r: (Vec<usize>, Vec<usize>))
    requires
        keys@.len() == ms@.len(),
    ensures
        is_case_order(ms@, keys@, r.0@, ms@.len() as int),
        is_undefined_order(ms@, r.1@, ms@.len() as int),
{
    let mut std_order: Vec<usize> = Vec::new();
    let mut und: Vec<usize> = Vec::new();
    let mut k: usize = 0;
    while k < ms.len()
        invariant
            keys@.len() == ms@.len(),
            k <= ms@.len(),
            is_case_order(ms@, keys@, std_order@, k as int),
            is_undefined_order(ms@, und@, k as int),
            forall|i: int| 0 <= i < std_order@.len() ==> std_order@[i] < k,
            forall|i: int| 0 <= i < und@.len() ==> und@[i] < k,
        decreases ms@.len() - k,
    {
        let undefined = match &ms[k].referent {
            TypeIdent::Builtin(Builtin::PrimitiveUndefined) => true,
            _ => false,
        };
        if undefined {
            let ghost old_u = und@;
            und.push(k);
            proof {
                assert forall|t: usize| #[trigger] und@.contains(t) <==> (t < k + 1 && is_undefined_member(ms@[t as int])) by {
                    if t == k {
                        assert(und@[old_u.len() as int] == k);
                    } else {
                        if und@.contains(t) {
                            let q = choose|q: int| 0 <= q < und@.len() && und@[q] == t;
                            assert(q < old_u.len());
                            assert(old_u.contains(t));
                        }
                        if t < k && is_undefined_member(ms@[t as int]) {
                            assert(old_u.contains(t));
                            let q = choose|q: int| 0 <= q < old_u.len() && old_u[q] == t;
                            assert(und@[q] == t);
                        }
                    }
                }
                assert forall|t: usize| #[trigger] std_order@.contains(t) <==> (t < k + 1 && !is_undefined_member(ms@[t as int])) by {
                    if t == k && std_order@.contains(t) {
                        let q = choose|q: int| 0 <= q < std_order@.len() && std_order@[q] == t;
                    }
                }
            }
        } else {
            let key = keys[k];
            let mut p: usize = 0;
            while p < std_order.len() && keys[std_order[p]] >= key
                invariant
                    keys@.len() == ms@.len(),
                    k < ms@.len(),
                    key == keys@[k as int],
                    p <= std_order@.len(),
                    forall|i: int| 0 <= i < std_order@.len() ==> std_order@[i] < k,
                    forall|i: int| 0 <= i < p ==> keys@[std_order@[i] as int] >= key,
                decreases std_order@.len() - p,
            {
                p += 1;
            }
            let ghost old_s = std_order@;
            std_order.insert(p, k);
            proof {
                assert(std_order@ == old_s.insert(p as int, k));
                assert forall|i: int| 0 <= i < std_order@.len() implies std_order@[i] < k + 1 by {
                    if i < p {
                        assert(std_order@[i] == old_s[i]);
                    } else if i > p {
                        assert(std_order@[i] == old_s[i - 1]);
                    }
                }
                assert forall|i: int, j: int|
                    0 <= i < j < std_order@.len() implies goes_before(keys@, #[trigger] std_order@[i], #[trigger] std_order@[j]) by {
                    if j < p {
                        assert(std_order@[i] == old_s[i] && std_order@[j] == old_s[j]);
                    } else if j == p {
                        assert(std_order@[i] == old_s[i]);
                    } else if i == p {
                        assert(std_order@[j] == old_s[j - 1]);
                        if p < old_s.len() {
                            assert(keys@[old_s[p as int] as int] < key);
                            if j - 1 > p {
                                assert(goes_before(keys@, old_s[p as int], old_s[j - 1]));
                            }
                        }
                    } else if i < p {
                        assert(std_order@[i] == old_s[i] && std_order@[j] == old_s[j - 1]);
                    } else {
                        assert(std_order@[i] == old_s[i - 1] && std_order@[j] == old_s[j - 1]);
                    }
                }
                assert forall|t: usize| #[trigger] std_order@.contains(t) <==> (t < k + 1 && !is_undefined_member(ms@[t as int])) by {
                    if t == k {
                        assert(std_order@[p as int] == k);
                    } else {
                        if std_order@.contains(t) {
                            let q = choose|q: int| 0 <= q < std_order@.len() && std_order@[q] == t;
                            if q < p {
                                assert(old_s[q] == t);
                            } else {
                                assert(q > p);
                                assert(old_s[q - 1] == t);
                            }
                            assert(old_s.contains(t));
                        }
                        if t < k && !is_undefined_member(ms@[t as int]) {
                            assert(old_s.contains(t));
                            let q = choose|q: int| 0 <= q < old_s.len() && old_s[q] == t;
                            if q < p {
                                assert(std_order@[q] == t);
                            } else {
                                assert(std_order@[q + 1] == t);
                            }
                        }
                    }
                }
                assert forall|t: usize| #[trigger] und@.contains(t) <==> (t < k + 1 && is_undefined_member(ms@[t as int])) by {
                    if t == k && und@.contains(t) {
                        let q = choose|q: int| 0 <= q < und@.len() && und@[q] == t;
                    }
                }
            }
        }
        k += 1;
    }
    (std_order, und)
}


/// The field counts of the members.
pub open spec fn field_keys(table: &TypeTable, ms: Seq<TypeRef>) -> Seq<usize> {
    Seq::new(ms.len(), |i: int| spec_field_count(table, ms[i], table_fuel(table)) as usize)
}

/// Type text made into a name: `<` reads `Of`, and `>`, `&`, `[`, `]` go.
pub open spec fn fingerprint(t: Seq<char>) -> Seq<char>
    decreases t.len(),
{
    if t.len() == 0 {
        t
    } else {
        let c = t.last();
        fingerprint(t.drop_last()) + if c == '<' {
            seq!['O', 'f']
        } else if c == '>' || c == '&' || c == '[' || c == ']' {
            Seq::empty()
        } else {
            seq![c]
        }
    }
}

/// The name of the case for a member: its type's fingerprint with `Case`
/// after it, in camel case.
pub open spec fn case_name(table: &TypeTable, r: TypeRef) -> Seq<char> {
    sanitize(camel_of(fingerprint(spec_text(table, r, Position::Plain, crate::funcs::depth())) + "Case"@))
}

fn fingerprint_of(t: &Vec<char>) -> (r: Vec<char>)
    ensures
        r@ == fingerprint(t@),
{
    let mut out: Vec<char> = Vec::new();
    let mut i: usize = 0;
    while i < t.len()
        invariant
            i <= t@.len(),
            out@ == fingerprint(t@.subrange(0, i as int)),
        decreases t@.len() - i,
    {
        let c = t[i];
        let ghost before = out@;
        if c == '<' {
            out.push('O');
            out.push('f');
        } else if c == '>' || c == '&' || c == '[' || c == ']' {
        } else {
            out.push(c);
        }
        assert(t@.subrange(0, i + 1).drop_last() =~= t@.subrange(0, i as int));
        assert(out@ =~= fingerprint(t@.subrange(0, i + 1)));
        i += 1;
    }
    assert(t@.subrange(0, t@.len() as int) =~= t@);
    out
}

/// One case of an emitted union.
pub struct UnionCase {
    /// The member it stands for, by position in the union.
    pub member: usize,
    pub name: String,
    /// The carried type, or `None` for a case without a field.
    pub payload: Option<String>,
    /// A case for `undefined`, serialized as `undefined`.
    pub is_undefined: bool,
}

pub open spec fn case_members(cs: Seq<UnionCase>) -> Seq<usize> {
    cs.map_values(|c: UnionCase| c.member)
}

/// The case that stands for member `m`.
pub open spec fn is_case_for(table: &TypeTable, ms: Seq<TypeRef>, c: UnionCase, undefined: bool) -> bool {
    &&& c.member < ms.len()
    &&& c.name@ == case_name(table, ms[c.member as int])
    &&& c.is_undefined == undefined
    &&& c.payload == (if undefined || spec_uninhabited(table, ms[c.member as int], table_fuel(table)) {
        None::<String>
    } else {
        Some(c.payload->0)
    })
    &&& (c.payload is Some ==> c.payload->0@ == spec_text(
        table,
        ms[c.member as int],
        Position::Plain,
        crate::funcs::depth(),
    ))
}

/// The cases of a union are its standard members, widest first, then its
/// `undefined` members.
pub open spec fn is_union_cases(table: &TypeTable, ms: Seq<TypeRef>, cs: Seq<UnionCase>) -> bool {
    exists|s: int|
        {
            &&& 0 <= s <= cs.len()
            &&& is_case_order(ms, field_keys(table, ms), case_members(cs).subrange(0, s), ms.len() as int)
            &&& is_undefined_order(ms, case_members(cs).subrange(s, cs.len() as int), ms.len() as int)
            &&& forall|i: int| 0 <= i < cs.len() ==> (#[trigger] cs[i]).is_undefined == (i >= s)
            &&& forall|i: int| 0 <= i < cs.len() ==> is_case_for(table, ms, #[trigger] cs[i], i >= s)
        }
}

fn make_case(table: &TypeTable, ms: &Vec<TypeRef>, m: usize, undefined: bool) -> (c: UnionCase)
    requires
        m < ms@.len(),
        table.types@.len() < usize::MAX,
    ensures
        is_case_for(table, ms@, c, undefined),
        c.member == m,
{
    let mut text: Vec<char> = Vec::new();
    push_text(&mut text, table, &ms[m], Position::Plain, usize::MAX);
    let mut fp = fingerprint_of(&text);
    push_str(&mut fp, "Case");
    let name = to_camel_case_ident(string_of(&fp).as_str()).render();
    assert(name@ =~= case_name(table, ms@[m as int]));
    let payload = if undefined || is_uninhabited(table, &ms[m]) {
        None
    } else {
        Some(string_of(&text))
    };
    UnionCase { member: m, name, payload, is_undefined: undefined }
}

/// The cases of the union of `ms`.
pub fn union_cases(table: &TypeTable, ms: &Vec<TypeRef>) -> (r: Vec<UnionCase>)
    requires
        table.types@.len() < usize::MAX,
    ensures
        r@.len() == ms@.len(),
        is_union_cases(table, ms@, r@),
{
    let mut keys: Vec<usize> = Vec::new();
    let mut i: usize = 0;
    while i < ms.len()
        invariant
            table.types@.len() < usize::MAX,
            i <= ms@.len(),
            keys@ == field_keys(table, ms@).subrange(0, i as int),
        decreases ms@.len() - i,
    {
        let k = get_field_count(table, &ms[i]);
        keys.push(k);
        assert(keys@ =~= field_keys(table, ms@).subrange(0, i + 1));
        i += 1;
    }
    assert(keys@ =~= field_keys(table, ms@));
    let (std_order, und) = union_case_order(ms, &keys);
    let mut r: Vec<UnionCase> = Vec::new();
    let mut j: usize = 0;
    while j < std_order.len()
        invariant
            table.types@.len() < usize::MAX,
            is_case_order(ms@, keys@, std_order@, ms@.len() as int),
            j <= std_order@.len(),
            case_members(r@) == std_order@.subrange(0, j as int),
            forall|q: int| 0 <= q < r@.len() ==> is_case_for(table, ms@, #[trigger] r@[q], false),
            forall|q: int| 0 <= q < r@.len() ==> !(#[trigger] r@[q]).is_undefined,
        decreases std_order@.len() - j,
    {
        assert(std_order@.contains(std_order@[j as int]));
        let c = make_case(table, ms, std_order[j], false);
        let ghost before = r@;
        r.push(c);
        assert(case_members(r@) =~= case_members(before).push(c.member));
        assert(case_members(r@) =~= std_order@.subrange(0, j + 1));
        j += 1;
    }
    let s = r.len();
    assert(std_order@.subrange(0, j as int) =~= std_order@);
    let mut q: usize = 0;
    while q < und.len()
        invariant
            table.types@.len() < usize::MAX,
            is_undefined_order(ms@, und@, ms@.len() as int),
            q <= und@.len(),
            s <= r@.len(),
            case_members(r@) == std_order@ + und@.subrange(0, q as int),
            s == std_order@.len(),
            forall|i: int| 0 <= i < r@.len() ==> is_case_for(table, ms@, #[trigger] r@[i], i >= s),
            forall|i: int| 0 <= i < r@.len() ==> (#[trigger] r@[i]).is_undefined == (i >= s),
        decreases und@.len() - q,
    {
        assert(und@.contains(und@[q as int]));
        let c = make_case(table, ms, und[q], true);
        let ghost before = r@;
        r.push(c);
        assert(case_members(r@) =~= case_members(before).push(c.member));
        assert(case_members(r@) =~= std_order@ + und@.subrange(0, q + 1));
        q += 1;
    }
    assert(und@.subrange(0, q as int) =~= und@);
    assert(case_members(r@).subrange(0, s as int) =~= std_order@);
    assert(case_members(r@).subrange(s as int, r@.len() as int) =~= und@);
    proof {
        assert(ms@.len() <= usize::MAX);
        lemma_orders_cover(ms@, keys@, std_order@, und@);
    }
    r
}

proof fn lemma_orders_cover(ms: Seq<TypeRef>, keys: Seq<usize>, a: Seq<usize>, b: Seq<usize>)
    requires
        is_case_order(ms, keys, a, ms.len() as int),
        is_undefined_order(ms, b, ms.len() as int),
        ms.len() <= usize::MAX,
    ensures
        a.len() + b.len() == ms.len(),
{
    let sa = a.to_set();
    let sb = b.to_set();
    assert(a.no_duplicates()) by {
        assert forall|i: int, j: int| 0 <= i < a.len() && 0 <= j < a.len() && i != j implies a[i] != a[j] by {
            if i < j {
                assert(goes_before(keys, a[i], a[j]));
            } else {
                assert(goes_before(keys, a[j], a[i]));
            }
        }
    }
    assert(b.no_duplicates()) by {
        assert forall|i: int, j: int| 0 <= i < b.len() && 0 <= j < b.len() && i != j implies b[i] != b[j] by {
            if i < j {
                assert(b[i] < b[j]);
            } else {
                assert(b[j] < b[i]);
            }
        }
    }
    a.unique_seq_to_set();
    b.unique_seq_to_set();
    let all = Set::new(|t: usize| t < ms.len());
    assert(sa.disjoint(sb));
    assert(sa + sb =~= all);
    assert(all =~= Set::new(|t: usize| (t as int) < ms.len()));
    lemma_usize_range_len(ms.len() as nat);
    vstd::set_lib::lemma_set_disjoint_lens(sa, sb);
}

proof fn lemma_usize_range_len(n: nat)
    requires
        n <= usize::MAX + 1,
    ensures
        Set::new(|t: usize| (t as int) < n).finite(),
        Set::new(|t: usize| (t as int) < n).len() == n,
    decreases n,
{
    if n == 0 {
        assert(Set::new(|t: usize| (t as int) < n) =~= Set::<usize>::empty());
    } else {
        lemma_usize_range_len((n - 1) as nat);
        let m = (n - 1) as usize;
        assert(Set::new(|t: usize| (t as int) < n) =~= Set::new(|t: usize| (t as int) < n - 1).insert(m));
    }
}


/// No case of a union has more fields than a case before it: the first case
/// is a widest member, and the `undefined` cases, with none, come last.
#[verifier::rlimit(60)]
pub proof fn lemma_union_widest_first(table: &TypeTable, ms: Seq<TypeRef>, cs: Seq<UnionCase>, i: int, j: int)
    requires
        is_union_cases(table, ms, cs),
        0 <= i < j < cs.len(),
    ensures
        field_keys(table, ms)[cs[j].member as int] <= field_keys(table, ms)[cs[i].member as int],
{
    let s = choose|s: int|
        {
            &&& 0 <= s <= cs.len()
            &&& is_case_order(ms, field_keys(table, ms), case_members(cs).subrange(0, s), ms.len() as int)
            &&& is_undefined_order(ms, case_members(cs).subrange(s, cs.len() as int), ms.len() as int)
            &&& forall|i: int| 0 <= i < cs.len() ==> (#[trigger] cs[i]).is_undefined == (i >= s)
            &&& forall|i: int| 0 <= i < cs.len() ==> is_case_for(table, ms, #[trigger] cs[i], i >= s)
        };
    let keys = field_keys(table, ms);
    let a = case_members(cs).subrange(0, s);
    let b = case_members(cs).subrange(s, cs.len() as int);
    if j < s {
        assert(a[i] == cs[i].member && a[j] == cs[j].member);
        assert(goes_before(keys, a[i], a[j]));
    } else {
        assert(b[j - s] == cs[j].member);
        assert(b.contains(cs[j].member));
        let m = ms[cs[j].member as int];
        assert(is_undefined_member(m));
        lemma_undefined_has_no_fields(table, m);
    }
}

proof fn lemma_undefined_has_no_fields(table: &TypeTable, m: TypeRef)
    requires
        is_undefined_member(m),
    ensures
        spec_field_count(table, m, table_fuel(table)) == 0,
{
    assert(crate::resolve::spec_resolve(table, &m) == Some(crate::resolve::Resolved::Builtin(Builtin::PrimitiveUndefined)));
    assert(crate::resolve::resolved_info(table, &m) is None);
}

/// A union whose members are all `undefined` has only cases that serialize
/// as `undefined`, with no field.
pub proof fn lemma_union_of_undefined(table: &TypeTable, ms: Seq<TypeRef>, cs: Seq<UnionCase>)
    requires
        is_union_cases(table, ms, cs),
        forall|k: int| 0 <= k < ms.len() ==> is_undefined_member(#[trigger] ms[k]),
    ensures
        forall|i: int| 0 <= i < cs.len() ==> (#[trigger] cs[i]).is_undefined && cs[i].payload is None,
{
    let s = choose|s: int|
        {
            &&& 0 <= s <= cs.len()
            &&& is_case_order(ms, field_keys(table, ms), case_members(cs).subrange(0, s), ms.len() as int)
            &&& is_undefined_order(ms, case_members(cs).subrange(s, cs.len() as int), ms.len() as int)
            &&& forall|i: int| 0 <= i < cs.len() ==> (#[trigger] cs[i]).is_undefined == (i >= s)
            &&& forall|i: int| 0 <= i < cs.len() ==> is_case_for(table, ms, #[trigger] cs[i], i >= s)
        };
    let a = case_members(cs).subrange(0, s);
    if s > 0 {
        assert(a.contains(a[0]));
        assert(is_undefined_member(ms[a[0] as int]));
    }
    assert forall|i: int| 0 <= i < cs.len() implies (#[trigger] cs[i]).is_undefined && cs[i].payload is None by {
        assert(cs[i].is_undefined == (i >= s));
        assert(is_case_for(table, ms, cs[i], i >= s));
    }
}

}
