//! Module paths: where the types of a file, and of a qualified name, live in
//! the emitted module tree, and relative paths between modules.
use crate::ident::{Identifier, chars_of, ident_view, snake_of, strip_ts_suffix, string_of, to_ns_name, to_snake_case_ident};
use crate::ir::TypeIdent;
use vstd::prelude::*;

verus! {

/// The directory under which each package is a root of its own.
pub open spec fn vendor_token() -> Seq<char> {
    seq!['n', 'o', 'd', 'e', '_', 'm', 'o', 'd', 'u', 'l', 'e', 's']
}

/// The components after the last vendor directory, or all of them when
/// there is none.
pub open spec fn after_vendor(p: Seq<Seq<char>>) -> Seq<Seq<char>>
    decreases p.len(),
{
    if p.len() == 0 {
        p
    } else if p.last() == vendor_token() {
        Seq::empty()
    } else {
        after_vendor(p.drop_last()).push(p.last())
    }
}

/// The module name of one path component.
pub open spec fn ns_view(c: Seq<char>) -> (Seq<Seq<char>>, Seq<Seq<char>>) {
    ident_view(snake_of(strip_ts_suffix(c)))
}

pub open spec fn idents_view(v: Seq<Identifier>) -> Seq<(Seq<Seq<char>>, Seq<Seq<char>>)> {
    v.map_values(|i: Identifier| i@)
}

/// The module path of a file: the module names of its components after
/// the last vendor directory.
pub open spec fn spec_path_segments(p: Seq<Seq<char>>) -> Seq<(Seq<Seq<char>>, Seq<Seq<char>>)> {
    after_vendor(p).map_values(|c: Seq<char>| ns_view(c))
}

fn is_vendor(s: &String) -> (r: bool)
    ensures
        r == (s@ == vendor_token()),
{
    let v = vec!['n', 'o', 'd', 'e', '_', 'm', 'o', 'd', 'u', 'l', 'e', 's'];
    let t = string_of(&v);
    *s == t
}

/// Maps a file, given as its normal path components from the root, to the
/// module path of its types.
pub fn path_segments(p: &Vec<String>) -> (r: Vec<Identifier>)
    ensures
        idents_view(r@) == spec_path_segments(crate::ident::strings_view(p@)),
{
    let ghost pv = crate::ident::strings_view(p@);
    let mut start: usize = 0;
    let mut i: usize = 0;
    while i < p.len()
        invariant
            i <= p@.len(),
            start <= i,
            pv == crate::ident::strings_view(p@),
            after_vendor(pv.subrange(0, i as int)) == pv.subrange(start as int, i as int),
        decreases p@.len() - i,
    {
        let ghost pre = pv.subrange(0, i as int + 1);
        assert(pre.drop_last() =~= pv.subrange(0, i as int));
        if is_vendor(&p[i]) {
            start = i + 1;
            assert(pv.subrange(start as int, i + 1) =~= Seq::<Seq<char>>::empty());
        } else {
            assert(pv.subrange(start as int, i + 1) =~= pv.subrange(start as int, i as int).push(pv[i as int]));
        }
        i += 1;
    }
    assert(pv.subrange(0, p@.len() as int) =~= pv);
    let ghost kept = pv.subrange(start as int, p@.len() as int);
    let mut r: Vec<Identifier> = Vec::new();
    let mut j: usize = start;
    while j < p.len()
        invariant
            start <= j <= p@.len(),
            pv == crate::ident::strings_view(p@),
            kept == pv.subrange(start as int, p@.len() as int),
            idents_view(r@) == kept.subrange(0, j - start).map_values(|c: Seq<char>| ns_view(c)),
        decreases p@.len() - j,
    {
        let id = to_ns_name(p[j].as_str());
        let ghost old_r = r@;
        assert(pv[j as int] == p@[j as int]@);
        assert(id@ == ns_view(pv[j as int]));
        r.push(id);
        proof {
            assert(idents_view(r@) =~= idents_view(old_r).push(id@));
            assert(kept.subrange(0, j + 1 - start) =~= kept.subrange(0, j - start).push(pv[j as int]));
            assert(idents_view(r@) =~= kept.subrange(0, j + 1 - start).map_values(|c: Seq<char>| ns_view(c)));
        }
        j += 1;
    }
    assert(kept.subrange(0, p@.len() - start) =~= kept);
    r
}

/// Some component at or after position `i` is the vendor directory.
pub open spec fn vendor_at_or_after(p: Seq<Seq<char>>, i: int) -> bool {
    exists|j: int| i <= j < p.len() && p[j] == vendor_token()
}

/// A file's module path is empty exactly when it has no component outside
/// the vendor directory: every component lies at or above the last vendor
/// directory.
pub proof fn lemma_path_segments_empty(p: Seq<Seq<char>>)
    ensures
        spec_path_segments(p).len() == 0 <==> forall|i: int|
            0 <= i < p.len() ==> #[trigger] vendor_at_or_after(p, i),
{
    if p.len() > 0 {
        if p.last() == vendor_token() {
            assert forall|i: int| 0 <= i < p.len() implies #[trigger] vendor_at_or_after(p, i) by {
                assert(p[p.len() - 1] == vendor_token());
            }
        } else {
            let i = p.len() - 1;
            assert(!vendor_at_or_after(p, i));
            assert(spec_path_segments(p).len() == after_vendor(p).len());
        }
    }
}


/// The module path that a qualified name adds: the snake case identifiers
/// of all its segments but the last.
pub open spec fn spec_name_segments(n: TypeIdent) -> Seq<(Seq<Seq<char>>, Seq<Seq<char>>)> {
    match n {
        TypeIdent::QualifiedName(v) => if v@.len() == 0 {
            Seq::empty()
        } else {
            crate::ident::strings_view(v@).drop_last().map_values(
                |c: Seq<char>| ident_view(snake_of(c)),
            )
        },
        _ => Seq::empty(),
    }
}

/// Maps a type name to the module path that its namespace adds.
pub fn name_segments(n: &TypeIdent) -> (r: Vec<Identifier>)
    ensures
        idents_view(r@) == spec_name_segments(*n),
{
    let mut r: Vec<Identifier> = Vec::new();
    match n {
        TypeIdent::QualifiedName(v) => {
            if v.len() == 0 {
                assert(idents_view(r@) =~= Seq::empty());
                return r;
            }
            let ghost sv = crate::ident::strings_view(v@).drop_last();
            let last = v.len() - 1;
            let mut j: usize = 0;
            while j < last
                invariant
                    v@.len() >= 1,
                    last == v@.len() - 1,
                    j <= last,
                    sv == crate::ident::strings_view(v@).drop_last(),
                    idents_view(r@) == sv.subrange(0, j as int).map_values(
                        |c: Seq<char>| ident_view(snake_of(c)),
                    ),
                decreases v@.len() - j,
            {
                let id = to_snake_case_ident(v[j].as_str());
                let ghost old_r = r@;
                assert(sv[j as int] == v@[j as int]@);
                r.push(id);
                proof {
                    assert(idents_view(r@) =~= idents_view(old_r).push(id@));
                    assert(sv.subrange(0, j + 1) =~= sv.subrange(0, j as int).push(sv[j as int]));
                    assert(idents_view(r@) =~= sv.subrange(0, j + 1).map_values(
                        |c: Seq<char>| ident_view(snake_of(c)),
                    ));
                }
                j += 1;
            }
            assert(sv.subrange(0, j as int) =~= sv);
            r
        },
        _ => {
            assert(idents_view(r@) =~= Seq::empty());
            r
        },
    }
}

/// The module path of a type: its file's path, then its namespace.
pub fn mod_path(file: &Vec<String>, n: &TypeIdent) -> (r: Vec<Identifier>)
    ensures
        idents_view(r@) == spec_path_segments(crate::ident::strings_view(file@)) + spec_name_segments(
            *n,
        ),
{
    let mut r = path_segments(file);
    let mut tail = name_segments(n);
    let ghost a = r@;
    let ghost b = tail@;
    r.append(&mut tail);
    assert(idents_view(r@) =~= idents_view(a) + idents_view(b));
    r
}

/// An identifier of one segment, taken as it is.
pub fn plain_ident(s: String) -> (r: Identifier)
    ensures
        r@ == (seq![s@], Seq::<Seq<char>>::empty()),
{
    let mut parts: Vec<String> = Vec::new();
    parts.push(s);
    let r = Identifier { type_parts: parts, type_params: Vec::new() };
    assert(r@.0 =~= seq![s@]);
    assert(r@.1 =~= Seq::<Seq<char>>::empty());
    r
}

pub open spec fn super_view() -> (Seq<Seq<char>>, Seq<Seq<char>>) {
    (seq![seq!['s', 'u', 'p', 'e', 'r']], Seq::empty())
}

/// The path that reaches `to` from a module `depth` levels below the root:
/// `depth` parent steps, then the segments of `to`.
pub open spec fn spec_relative_ns(depth: nat, to: Seq<(Seq<Seq<char>>, Seq<Seq<char>>)>) -> Seq<
    (Seq<Seq<char>>, Seq<Seq<char>>),
> {
    Seq::new(depth, |i: int| super_view()) + to
}

/// Builds the path that reaches the module path `to` from any module whose
/// own path has `depth` segments.
pub fn relative_ns(depth: usize, to: &Vec<Identifier>) -> (r: Vec<Identifier>)
    ensures
        idents_view(r@) == spec_relative_ns(depth as nat, idents_view(to@)),
{
    let mut r: Vec<Identifier> = Vec::new();
    let mut i: usize = 0;
    while i < depth
        invariant
            i <= depth,
            idents_view(r@) == Seq::new(i as nat, |k: int| super_view()),
        decreases depth - i,
    {
        let id = plain_ident(string_of(&vec!['s', 'u', 'p', 'e', 'r']));
        let ghost old_r = r@;
        r.push(id);
        assert(idents_view(r@) =~= idents_view(old_r).push(id@));
        assert(idents_view(r@) =~= Seq::new((i + 1) as nat, |k: int| super_view()));
        i += 1;
    }
    let mut j: usize = 0;
    let ghost head = r@;
    while j < to.len()
        invariant
            j <= to@.len(),
            idents_view(r@) == idents_view(head) + idents_view(to@).subrange(0, j as int),
            idents_view(head) == Seq::new(depth as nat, |k: int| super_view()),
        decreases to@.len() - j,
    {
        let c = to[j].copy();
        let ghost old_r = r@;
        r.push(c);
        assert(idents_view(r@) =~= idents_view(old_r).push(c@));
        assert(idents_view(to@).subrange(0, j + 1) =~= idents_view(to@).subrange(0, j as int).push(
            to@[j as int]@,
        ));
        j += 1;
    }
    assert(idents_view(to@).subrange(0, to@.len() as int) =~= idents_view(to@));
    r
}

}
