//! The module tree: built by mutation, one path at a time, merging modules
//! that share a name under the same parent, then frozen into nested modules.
use crate::ident::{Identifier, strings_view};
use crate::ir::{TypeIdent, TypeTable};
use crate::modpath::{idents_view, mod_path, path_segments, plain_ident, spec_name_segments, spec_path_segments};
use vstd::prelude::*;

verus! {

pub type IdView = (Seq<Seq<char>>, Seq<Seq<char>>);

/// A module under construction: its name, the types it holds (indices into
/// the type table), its children and its parent (indices into the tree).
pub struct ModNode {
    pub name: Identifier,
    pub types: Vec<usize>,
    pub children: Vec<usize>,
    pub parent: usize,
}

/// The module tree under construction; node 0 is the root.
pub struct MutModDef {
    pub nodes: Vec<ModNode>,
}

/// The names of the modules from the root down to node `i`, the root's own
/// name left out.
pub open spec fn node_path(t: &MutModDef, i: int) -> Seq<IdView>
    decreases i,
{
    if i <= 0 || i >= t.nodes@.len() || t.nodes@[i].parent >= i {
        Seq::empty()
    } else {
        node_path(t, t.nodes@[i].parent as int).push(t.nodes@[i].name@)
    }
}

impl MutModDef {
    /// Every node but the root hangs under an earlier node, which lists it
    /// among its children; children are later nodes with distinct names.
    pub open spec fn wf(&self) -> bool {
        &&& self.nodes@.len() >= 1
        &&& forall|i: int| 1 <= i < self.nodes@.len() ==> #[trigger] self.nodes@[i].parent < i
        &&& forall|i: int, k: int|
            0 <= i < self.nodes@.len() && 0 <= k < self.nodes@[i].children@.len() ==> {
                let c = #[trigger] self.nodes@[i].children@[k] as int;
                &&& i < c < self.nodes@.len()
                &&& self.nodes@[c].parent == i
            }
        &&& forall|i: int, k1: int, k2: int|
            0 <= i < self.nodes@.len() && 0 <= k1 < self.nodes@[i].children@.len() && 0 <= k2
                < self.nodes@[i].children@.len() && k1 != k2 ==> self.nodes@[#[trigger] self.nodes@[i].children@[k1] as int].name@
                != self.nodes@[#[trigger] self.nodes@[i].children@[k2] as int].name@
    }
}

/// Node `parent` of `t` has a child named `name`.
pub open spec fn has_child_named(t: &MutModDef, parent: int, name: IdView) -> bool {
    exists|k: int|
        0 <= k < t.nodes@[parent].children@.len() && t.nodes@[t.nodes@[parent].children@[k] as int].name@
            == name
}

/// `new` keeps every node of `old` with its name and parent, and the types
/// it held first.
pub open spec fn extends_tree(old: &MutModDef, new: &MutModDef) -> bool {
    &&& new.nodes@.len() >= old.nodes@.len()
    &&& forall|n: int|
        0 <= n < old.nodes@.len() ==> {
            &&& (#[trigger] new.nodes@[n]).name@ == old.nodes@[n].name@
            &&& new.nodes@[n].parent == old.nodes@[n].parent
            &&& old.nodes@[n].types@.len() <= new.nodes@[n].types@.len()
            &&& old.nodes@[n].types@ == new.nodes@[n].types@.subrange(
                0,
                old.nodes@[n].types@.len() as int,
            )
        }
}

proof fn lemma_extends_path(old: &MutModDef, new: &MutModDef, i: int)
    requires
        extends_tree(old, new),
        0 <= i < old.nodes@.len(),
    ensures
        node_path(new, i) == node_path(old, i),
    decreases i,
{
    if i > 0 && old.nodes@[i].parent < i {
        lemma_extends_path(old, new, old.nodes@[i].parent as int);
    }
}

proof fn lemma_extends_trans(a: &MutModDef, b: &MutModDef, c: &MutModDef)
    requires
        extends_tree(a, b),
        extends_tree(b, c),
    ensures
        extends_tree(a, c),
{
    assert forall|n: int| 0 <= n < a.nodes@.len() implies {
        &&& (#[trigger] c.nodes@[n]).name@ == a.nodes@[n].name@
        &&& c.nodes@[n].parent == a.nodes@[n].parent
        &&& a.nodes@[n].types@.len() <= c.nodes@[n].types@.len()
        &&& a.nodes@[n].types@ == c.nodes@[n].types@.subrange(0, a.nodes@[n].types@.len() as int)
    } by {
        assert(b.nodes@[n].types@ == c.nodes@[n].types@.subrange(0, b.nodes@[n].types@.len() as int));
        assert(c.nodes@[n].types@.subrange(0, a.nodes@[n].types@.len() as int) =~= b.nodes@[n].types@.subrange(
            0,
            a.nodes@[n].types@.len() as int,
        ));
    }
}

/// Every prefix of a module's path is the path of a module of the tree: the
/// tree holds each ancestor of each module, possibly empty.
pub proof fn lemma_prefix_closed(t: &MutModDef, i: int, k: int)
    requires
        t.wf(),
        0 <= i < t.nodes@.len(),
        0 <= k <= node_path(t, i).len(),
    ensures
        exists|j: int| 0 <= j < t.nodes@.len() && node_path(t, j) == node_path(t, i).subrange(0, k),
    decreases i,
{
    if k == node_path(t, i).len() {
        assert(node_path(t, i).subrange(0, k) =~= node_path(t, i));
    } else {
        let p = t.nodes@[i].parent as int;
        assert(i > 0);
        assert(node_path(t, i) == node_path(t, p).push(t.nodes@[i].name@));
        lemma_prefix_closed(t, p, k);
        assert(node_path(t, p).subrange(0, k) =~= node_path(t, i).subrange(0, k));
    }
}

fn strings_eq(a: &Vec<String>, b: &Vec<String>) -> (r: bool)
    ensures
        r == (strings_view(a@) == strings_view(b@)),
{
    if a.len() != b.len() {
        assert(strings_view(a@).len() != strings_view(b@).len());
        return false;
    }
    let mut i: usize = 0;
    while i < a.len()
        invariant
            a@.len() == b@.len(),
            i <= a@.len(),
            forall|j: int| 0 <= j < i ==> a@[j]@ == b@[j]@,
        decreases a@.len() - i,
    {
        if !(a[i] == b[i]) {
            assert(strings_view(a@)[i as int] != strings_view(b@)[i as int]);
            return false;
        }
        i += 1;
    }
    assert(strings_view(a@) =~= strings_view(b@));
    true
}

fn ident_same(a: &Identifier, b: &Identifier) -> (r: bool)
    ensures
        r == (a@ == b@),
{
    strings_eq(&a.type_parts, &b.type_parts) && strings_eq(&a.type_params, &b.type_params)
}

impl MutModDef {
    /// A tree of the root alone.
    pub fn new(root_name: Identifier) -> (r: MutModDef)
        ensures
            r.wf(),
            r.nodes@.len() == 1,
            r.nodes@[0].name@ == root_name@,
            r.nodes@[0].types@.len() == 0,
    {
        let root = ModNode { name: root_name, types: Vec::new(), children: Vec::new(), parent: 0 };
        let mut nodes: Vec<ModNode> = Vec::new();
        nodes.push(root);
        MutModDef { nodes }
    }

    /// Adds `types` to the child of `parent` named `mod_name`, creating that
    /// child when `parent` has none of that name; returns the child.
    pub fn add_child_mod(&mut self, parent: usize, mod_name: Identifier, types: Vec<usize>) -> (r:
        usize)
        requires
            old(self).wf(),
            parent < old(self).nodes@.len(),
        ensures
            final(self).wf(),
            extends_tree(old(self), final(self)),
            r < final(self).nodes@.len(),
            final(self).nodes@[r as int].parent == parent,
            r > parent,
            final(self).nodes@[r as int].name@ == mod_name@,
            final(self).nodes@[r as int].types@ == (if r < old(self).nodes@.len() {
                old(self).nodes@[r as int].types@
            } else {
                Seq::empty()
            }) + types@,
            forall|n: int|
                0 <= n < old(self).nodes@.len() && n != r ==> (#[trigger] final(self).nodes@[n]).types@
                    == old(self).nodes@[n].types@,
            r < old(self).nodes@.len() ==> final(self).nodes@.len() == old(self).nodes@.len(),
            r >= old(self).nodes@.len() ==> r == old(self).nodes@.len() && final(self).nodes@.len()
                == old(self).nodes@.len() + 1,
            (r < old(self).nodes@.len()) == has_child_named(old(self), parent as int, mod_name@),
            r < old(self).nodes@.len() ==> old(self).nodes@[parent as int].children@.contains(r),
            r < old(self).nodes@.len() ==> final(self).nodes@[parent as int].children@ == old(
                self,
            ).nodes@[parent as int].children@,
            r >= old(self).nodes@.len() ==> final(self).nodes@[parent as int].children@ == old(
                self,
            ).nodes@[parent as int].children@.push(r),
    {
        let n = self.nodes.len();
        let mut k: usize = 0;
        while k < self.nodes[parent].children.len()
            invariant
                *self == *old(self),
                n == self.nodes@.len(),
                self.wf(),
                parent < self.nodes@.len(),
                k <= self.nodes@[parent as int].children@.len(),
                forall|j: int| 0 <= j < k ==> self.nodes@[self.nodes@[parent as int].children@[j] as int].name@ != mod_name@,
            decreases self.nodes@[parent as int].children@.len() - k,
        {
            let c = self.nodes[parent].children[k];
            if ident_same(&self.nodes[c].name, &mod_name) {
                let ghost before = *self;
                let mut ts = types;
                self.nodes[c].types.append(&mut ts);
                proof {
                    assert(self.nodes@[c as int].types@.subrange(0, before.nodes@[c as int].types@.len() as int)
                        =~= before.nodes@[c as int].types@);
                    assert forall|m: int| 0 <= m < before.nodes@.len() implies {
                        &&& (#[trigger] self.nodes@[m]).name@ == before.nodes@[m].name@
                        &&& self.nodes@[m].parent == before.nodes@[m].parent
                        &&& before.nodes@[m].types@.len() <= self.nodes@[m].types@.len()
                        &&& before.nodes@[m].types@ == self.nodes@[m].types@.subrange(0, before.nodes@[m].types@.len() as int)
                    } by {
                        if m != c {
                            assert(self.nodes@[m] == before.nodes@[m]);
                            assert(self.nodes@[m].types@.subrange(0, before.nodes@[m].types@.len() as int) =~= self.nodes@[m].types@);
                        }
                    }
                    assert forall|i: int, kk: int|
                        0 <= i < self.nodes@.len() && 0 <= kk < self.nodes@[i].children@.len() implies {
                            let cc = #[trigger] self.nodes@[i].children@[kk] as int;
                            &&& i < cc < self.nodes@.len()
                            &&& self.nodes@[cc].parent == i
                        } by {
                        assert(self.nodes@[i].children == before.nodes@[i].children);
                        let cc = self.nodes@[i].children@[kk] as int;
                        assert(before.nodes@[i].children@[kk] as int == cc);
                    }
                    assert forall|i: int| 1 <= i < self.nodes@.len() implies #[trigger] self.nodes@[i].parent < i by {
                        assert(self.nodes@[i].parent == before.nodes@[i].parent);
                    }
                    assert forall|i: int, k1: int, k2: int|
                        0 <= i < self.nodes@.len() && 0 <= k1 < self.nodes@[i].children@.len() && 0 <= k2
                            < self.nodes@[i].children@.len() && k1 != k2 implies self.nodes@[#[trigger] self.nodes@[i].children@[k1] as int].name@
                            != self.nodes@[#[trigger] self.nodes@[i].children@[k2] as int].name@ by {
                        assert(self.nodes@[i].children == before.nodes@[i].children);
                        let c1 = before.nodes@[i].children@[k1] as int;
                        let c2 = before.nodes@[i].children@[k2] as int;
                        assert(self.nodes@[c1].name@ == before.nodes@[c1].name@);
                        assert(self.nodes@[c2].name@ == before.nodes@[c2].name@);
                    }
                    assert(before.nodes@[parent as int].children@[k as int] == c);
                    assert(has_child_named(&before, parent as int, mod_name@));
                    assert(self.nodes@[parent as int].children == before.nodes@[parent as int].children);
                }
                return c;
            }
            k += 1;
        }
        let ghost before = *self;
        let child = ModNode { name: mod_name, types, children: Vec::new(), parent };
        self.nodes.push(child);
        self.nodes[parent].children.push(n);
        proof {
            assert forall|m: int| 0 <= m < before.nodes@.len() implies {
                &&& (#[trigger] self.nodes@[m]).name@ == before.nodes@[m].name@
                &&& self.nodes@[m].parent == before.nodes@[m].parent
                &&& before.nodes@[m].types@.len() <= self.nodes@[m].types@.len()
                &&& before.nodes@[m].types@ == self.nodes@[m].types@.subrange(0, before.nodes@[m].types@.len() as int)
            } by {
                assert(self.nodes@[m].types == before.nodes@[m].types);
                assert(self.nodes@[m].types@.subrange(0, before.nodes@[m].types@.len() as int) =~= self.nodes@[m].types@);
            }
            assert forall|i: int, kk: int|
                0 <= i < self.nodes@.len() && 0 <= kk < self.nodes@[i].children@.len() implies {
                    let cc = #[trigger] self.nodes@[i].children@[kk] as int;
                    &&& i < cc < self.nodes@.len()
                    &&& self.nodes@[cc].parent == i
                } by {
                if i == parent as int {
                    if kk < before.nodes@[i].children@.len() {
                        assert(self.nodes@[i].children@[kk] == before.nodes@[i].children@[kk]);
                    }
                } else if i < n {
                    assert(self.nodes@[i].children == before.nodes@[i].children);
                    assert(before.nodes@[i].children@[kk] == self.nodes@[i].children@[kk]);
                }
            }
            assert forall|i: int| 1 <= i < self.nodes@.len() implies #[trigger] self.nodes@[i].parent < i by {
                if i < n {
                    assert(self.nodes@[i].parent == before.nodes@[i].parent);
                }
            }
            assert forall|i: int, k1: int, k2: int|
                0 <= i < self.nodes@.len() && 0 <= k1 < self.nodes@[i].children@.len() && 0 <= k2
                    < self.nodes@[i].children@.len() && k1 != k2 implies self.nodes@[#[trigger] self.nodes@[i].children@[k1] as int].name@
                    != self.nodes@[#[trigger] self.nodes@[i].children@[k2] as int].name@ by {
                if i == parent as int {
                    let old_len = before.nodes@[i].children@.len();
                    if k1 < old_len && k2 < old_len {
                        let c1 = before.nodes@[i].children@[k1] as int;
                        let c2 = before.nodes@[i].children@[k2] as int;
                        assert(self.nodes@[i].children@[k1] as int == c1);
                        assert(self.nodes@[i].children@[k2] as int == c2);
                        assert(self.nodes@[c1].name@ == before.nodes@[c1].name@);
                        assert(self.nodes@[c2].name@ == before.nodes@[c2].name@);
                    } else if k1 < old_len {
                        let c1 = before.nodes@[i].children@[k1] as int;
                        assert(self.nodes@[i].children@[k1] as int == c1);
                        assert(self.nodes@[i].children@[k2] as int == n);
                        assert(self.nodes@[c1].name@ == before.nodes@[c1].name@);
                    } else {
                        let c2 = before.nodes@[i].children@[k2] as int;
                        assert(self.nodes@[i].children@[k2] as int == c2);
                        assert(self.nodes@[i].children@[k1] as int == n);
                        assert(self.nodes@[c2].name@ == before.nodes@[c2].name@);
                    }
                } else if i < n {
                    assert(self.nodes@[i].children == before.nodes@[i].children);
                    let c1 = before.nodes@[i].children@[k1] as int;
                    let c2 = before.nodes@[i].children@[k2] as int;
                    assert(self.nodes@[c1].name@ == before.nodes@[c1].name@);
                    assert(self.nodes@[c2].name@ == before.nodes@[c2].name@);
                }
            }
            assert(!has_child_named(&before, parent as int, mod_name@));
            assert(self.nodes@[parent as int].children@ =~= before.nodes@[parent as int].children@.push(n));
            assert(self.nodes@[n as int].types@ =~= Seq::<usize>::empty() + types@);
        }
        n
    }
}


/// Type `t` sits in a module whose path is `path`.
pub open spec fn placed_at(tree: &MutModDef, t: usize, path: Seq<IdView>) -> bool {
    exists|j: int|
        0 <= j < tree.nodes@.len() && node_path(tree, j) == path && (
        #[trigger] tree.nodes@[j]).types@.contains(t)
}

proof fn lemma_placed_kept(a: &MutModDef, b: &MutModDef, t: usize, path: Seq<IdView>)
    requires
        extends_tree(a, b),
        placed_at(a, t, path),
    ensures
        placed_at(b, t, path),
{
    let j = choose|j: int|
        0 <= j < a.nodes@.len() && node_path(a, j) == path && (
        #[trigger] a.nodes@[j]).types@.contains(t);
    lemma_extends_path(a, b, j);
    let q = choose|q: int| 0 <= q < a.nodes@[j].types@.len() && a.nodes@[j].types@[q] == t;
    assert(b.nodes@[j].types@.subrange(0, a.nodes@[j].types@.len() as int)[q] == t);
    assert(b.nodes@[j].types@.contains(t));
}

proof fn lemma_extends_refl(a: &MutModDef)
    ensures
        extends_tree(a, a),
{
    assert forall|n: int| 0 <= n < a.nodes@.len() implies {
        &&& (#[trigger] a.nodes@[n]).name@ == a.nodes@[n].name@
        &&& a.nodes@[n].parent == a.nodes@[n].parent
        &&& a.nodes@[n].types@.len() <= a.nodes@[n].types@.len()
        &&& a.nodes@[n].types@ == a.nodes@[n].types@.subrange(0, a.nodes@[n].types@.len() as int)
    } by {
        assert(a.nodes@[n].types@ =~= a.nodes@[n].types@.subrange(0, a.nodes@[n].types@.len() as int));
    }
}

impl MutModDef {
    /// Walks `path` down from the root, reusing or adding a module per
    /// segment, and adds `types` to the module at its end (the root for an
    /// empty path); returns that module.
    pub fn insert_path(&mut self, path: &Vec<Identifier>, types: Vec<usize>) -> (r: usize)
        requires
            old(self).wf(),
        ensures
            final(self).wf(),
            extends_tree(old(self), final(self)),
            r < final(self).nodes@.len(),
            node_path(final(self), r as int) == idents_view(path@),
            final(self).nodes@[r as int].types@ == (if r < old(self).nodes@.len() {
                old(self).nodes@[r as int].types@
            } else {
                Seq::empty()
            }) + types@,
            forall|n: int|
                0 <= n < old(self).nodes@.len() && n != r ==> (#[trigger] final(self).nodes@[n]).types@
                    == old(self).nodes@[n].types@,
            forall|n: int|
                old(self).nodes@.len() <= n < final(self).nodes@.len() && n != r ==> (#[trigger] final(self).nodes@[n]).types@.len() == 0,
    {
        proof {
            lemma_extends_refl(self);
        }
        if path.len() == 0 {
            let ghost before = *self;
            let mut ts = types;
            self.nodes[0].types.append(&mut ts);
            proof {
                assert forall|m: int| 0 <= m < before.nodes@.len() implies {
                    &&& (#[trigger] self.nodes@[m]).name@ == before.nodes@[m].name@
                    &&& self.nodes@[m].parent == before.nodes@[m].parent
                    &&& before.nodes@[m].types@.len() <= self.nodes@[m].types@.len()
                    &&& before.nodes@[m].types@ == self.nodes@[m].types@.subrange(0, before.nodes@[m].types@.len() as int)
                } by {
                    assert(self.nodes@[m].types@.subrange(0, before.nodes@[m].types@.len() as int) =~= before.nodes@[m].types@);
                }
                assert forall|i: int, kk: int|
                    0 <= i < self.nodes@.len() && 0 <= kk < self.nodes@[i].children@.len() implies {
                        let cc = #[trigger] self.nodes@[i].children@[kk] as int;
                        &&& i < cc < self.nodes@.len()
                        &&& self.nodes@[cc].parent == i
                    } by {
                    assert(self.nodes@[i].children == before.nodes@[i].children);
                    assert(before.nodes@[i].children@[kk] == self.nodes@[i].children@[kk]);
                }
                assert forall|i: int| 1 <= i < self.nodes@.len() implies #[trigger] self.nodes@[i].parent < i by {
                    assert(self.nodes@[i].parent == before.nodes@[i].parent);
                }
                assert(idents_view(path@) =~= Seq::empty());
            }
            return 0;
        }
        let last = path.len() - 1;
        let mut cur: usize = 0;
        let mut i: usize = 0;
        while i < last
            invariant
                last + 1 == path@.len(),
                i <= last,
                self.wf(),
                extends_tree(old(self), self),
                cur < self.nodes@.len(),
                node_path(self, cur as int) == idents_view(path@).subrange(0, i as int),
                forall|n: int|
                    0 <= n < old(self).nodes@.len() ==> (#[trigger] self.nodes@[n]).types@
                        == old(self).nodes@[n].types@,
                forall|n: int|
                    old(self).nodes@.len() <= n < self.nodes@.len() ==> (#[trigger] self.nodes@[n]).types@.len() == 0,
            decreases last - i,
        {
            let ghost before = *self;
            let seg = path[i].copy();
            let next = self.add_child_mod(cur, seg, Vec::new());
            proof {
                lemma_extends_path(&before, self, cur as int);
                lemma_extends_trans(old(self), &before, self);
                assert(idents_view(path@).subrange(0, i + 1) =~= idents_view(path@).subrange(0, i as int).push(path@[i as int]@));
                assert forall|n: int|
                    0 <= n < old(self).nodes@.len() implies (#[trigger] self.nodes@[n]).types@
                        == old(self).nodes@[n].types@ by {
                    if n == next {
                        assert(self.nodes@[n].types@ =~= before.nodes@[n].types@);
                    }
                }
                assert forall|n: int|
                    old(self).nodes@.len() <= n < self.nodes@.len() implies (#[trigger] self.nodes@[n]).types@.len() == 0 by {
                    if n < before.nodes@.len() {
                        assert(before.nodes@[n].types@.len() == 0);
                        if n == next {
                            assert(self.nodes@[n].types@ =~= before.nodes@[n].types@);
                        }
                    } else {
                        assert(n == before.nodes@.len());
                        assert(n == next);
                    }
                }
            }
            cur = next;
            i += 1;
        }
        let ghost before = *self;
        let seg = path[last].copy();
        let r = self.add_child_mod(cur, seg, types);
        proof {
            lemma_extends_path(&before, self, cur as int);
            lemma_extends_trans(old(self), &before, self);
            assert(idents_view(path@).subrange(0, last as int).push(path@[last as int]@) =~= idents_view(path@));
            if r < old(self).nodes@.len() {
            } else if r < before.nodes@.len() {
                assert(before.nodes@[r as int].types@ =~= Seq::<usize>::empty());
            }
            assert forall|m: int|
                0 <= m < old(self).nodes@.len() && m != r implies (#[trigger] self.nodes@[m]).types@
                    == old(self).nodes@[m].types@ by {
                assert(before.nodes@[m].types@ == old(self).nodes@[m].types@);
            }
            assert forall|m: int|
                old(self).nodes@.len() <= m < self.nodes@.len() && m != r implies (#[trigger] self.nodes@[m]).types@.len() == 0 by {
                if m < before.nodes@.len() {
                    assert(before.nodes@[m].types@.len() == 0);
                }
            }
        }
        r
    }
}


/// The indices of the types of file `f`, in table order.
fn types_of_file(table: &TypeTable, f: usize) -> (r: Vec<usize>)
    ensures
        forall|t: usize| r@.contains(t) <==> (t < table.types@.len() && table.types@[t as int].file == f),
        forall|k: int| 0 <= k < r@.len() ==> r@[k] < table.types@.len(),
{
    let mut r: Vec<usize> = Vec::new();
    let mut i: usize = 0;
    while i < table.types.len()
        invariant
            i <= table.types@.len(),
            forall|t: usize| r@.contains(t) <==> (t < i && table.types@[t as int].file == f),
            forall|k: int| 0 <= k < r@.len() ==> r@[k] < i,
        decreases table.types@.len() - i,
    {
        if table.types[i].file == f {
            let ghost old_r = r@;
            r.push(i);
            proof {
                assert(r@ == old_r.push(i));
                assert forall|t: usize| r@.contains(t) <==> (t < i + 1 && table.types@[t as int].file == f) by {
                    if t == i {
                        assert(r@[old_r.len() as int] == i);
                    } else {
                        if r@.contains(t) {
                            let k = choose|k: int| 0 <= k < r@.len() && r@[k] == t;
                            assert(k < old_r.len());
                            assert(old_r[k] == t);
                            assert(old_r.contains(t));
                        }
                        if t < i && table.types@[t as int].file == f {
                            assert(old_r.contains(t));
                            let k = choose|k: int| 0 <= k < old_r.len() && old_r[k] == t;
                            assert(r@[k] == t);
                        }
                    }
                }
            }
        }
        i += 1;
    }
    r
}

/// The module path of the file that holds type `t`.
pub open spec fn file_path_of(table: &TypeTable, t: int) -> Seq<IdView> {
    spec_path_segments(strings_view(table.files@[table.types@[t].file as int]@))
}

/// Node `j` may hold type `t`: its path is that of `t`'s file, or for a
/// qualified name that of its namespace under the file.
pub open spec fn type_path_ok(table: &TypeTable, tree: &MutModDef, j: int, t: usize) -> bool {
    &&& t < table.types@.len()
    &&& (node_path(tree, j) == file_path_of(table, t as int) || (table.types@[t as int].name is QualifiedName
        && node_path(tree, j) == file_path_of(table, t as int) + spec_name_segments(
        table.types@[t as int].name,
    )))
}

/// No module holds a type but at a path where it belongs.
pub open spec fn holds_only(table: &TypeTable, tree: &MutModDef) -> bool {
    forall|j: int, q: int|
        0 <= j < tree.nodes@.len() && 0 <= q < tree.nodes@[j].types@.len() ==> type_path_ok(
            table,
            tree,
            j,
            #[trigger] tree.nodes@[j].types@[q],
        )
}

proof fn lemma_only_kept(table: &TypeTable, a: &MutModDef, b: &MutModDef, r: int, added: Seq<usize>)
    requires
        holds_only(table, a),
        extends_tree(a, b),
        0 <= r < b.nodes@.len(),
        b.nodes@[r].types@ == (if r < a.nodes@.len() {
            a.nodes@[r].types@
        } else {
            Seq::empty()
        }) + added,
        forall|n: int| 0 <= n < a.nodes@.len() && n != r ==> (#[trigger] b.nodes@[n]).types@ == a.nodes@[n].types@,
        forall|n: int| a.nodes@.len() <= n < b.nodes@.len() && n != r ==> (#[trigger] b.nodes@[n]).types@.len() == 0,
        forall|q: int| 0 <= q < added.len() ==> type_path_ok(table, b, r, #[trigger] added[q]),
    ensures
        holds_only(table, b),
{
    assert forall|j: int, q: int|
        0 <= j < b.nodes@.len() && 0 <= q < b.nodes@[j].types@.len() implies type_path_ok(
            table,
            b,
            j,
            #[trigger] b.nodes@[j].types@[q],
        ) by {
        if j < a.nodes@.len() {
            lemma_extends_path(a, b, j);
        }
        if j == r {
            let pre = if r < a.nodes@.len() { a.nodes@[r].types@ } else { Seq::<usize>::empty() };
            if q < pre.len() {
                assert(b.nodes@[j].types@[q] == a.nodes@[j].types@[q]);
                assert(type_path_ok(table, a, j, a.nodes@[j].types@[q]));
            } else {
                assert(b.nodes@[j].types@[q] == added[q - pre.len()]);
            }
        } else if j < a.nodes@.len() {
            assert(b.nodes@[j].types@[q] == a.nodes@[j].types@[q]);
            assert(type_path_ok(table, a, j, a.nodes@[j].types@[q]));
        }
    }
}

/// Every type sits in its file's module, and a type with a qualified name
/// also in the module of its namespace under that.
pub open spec fn holds_all(table: &TypeTable, tree: &MutModDef, below: int) -> bool {
    forall|t: usize|
        t < table.types@.len() && #[trigger] table.types@[t as int].file < below ==> {
            &&& placed_at(tree, t, file_path_of(table, t as int))
            &&& (table.types@[t as int].name is QualifiedName ==> placed_at(
                tree,
                t,
                file_path_of(table, t as int) + spec_name_segments(table.types@[t as int].name),
            ))
        }
}

proof fn lemma_holds_kept(table: &TypeTable, a: &MutModDef, b: &MutModDef, below: int)
    requires
        extends_tree(a, b),
        holds_all(table, a, below),
    ensures
        holds_all(table, b, below),
{
    assert forall|t: usize|
        t < table.types@.len() && #[trigger] table.types@[t as int].file < below implies {
            &&& placed_at(b, t, file_path_of(table, t as int))
            &&& (table.types@[t as int].name is QualifiedName ==> placed_at(
                b,
                t,
                file_path_of(table, t as int) + spec_name_segments(table.types@[t as int].name),
            ))
        } by {
        lemma_placed_kept(a, b, t, file_path_of(table, t as int));
        if table.types@[t as int].name is QualifiedName {
            lemma_placed_kept(
                a,
                b,
                t,
                file_path_of(table, t as int) + spec_name_segments(table.types@[t as int].name),
            );
        }
    }
}

/// Builds the module tree of a table: each file's types go to the module of
/// its path, and each type with a qualified name also to the module of its
/// namespace below that; modules of the same name under one parent merge.
pub fn build_mod_tree(table: &TypeTable) -> (r: MutModDef)
    requires
        table.wf(),
    ensures
        r.wf(),
        holds_all(table, &r, table.files@.len() as int),
        holds_only(table, &r),
{
    let root = plain_ident(crate::ident::string_of(&vec!['r', 'o', 'o', 't']));
    let mut tree = MutModDef::new(root);
    let mut f: usize = 0;
    while f < table.files.len()
        invariant
            table.wf(),
            f <= table.files@.len(),
            tree.wf(),
            holds_all(table, &tree, f as int),
            holds_only(table, &tree),
        decreases table.files@.len() - f,
    {
        let mp = path_segments(&table.files[f]);
        let ts = types_of_file(table, f);
        let ghost t0 = tree;
        let ghost ts_v = ts@;
        let ts_copy = ts.clone();
        assert(ts_copy@ =~= ts@);
        let at = tree.insert_path(&mp, ts_copy);
        proof {
            lemma_holds_kept(table, &t0, &tree, f as int);
            assert forall|q: int| 0 <= q < ts_v.len() implies type_path_ok(table, &tree, at as int, #[trigger] ts_v[q]) by {
                assert(ts_v.contains(ts_v[q]));
            }
            lemma_only_kept(table, &t0, &tree, at as int, ts_v);
            assert forall|t: usize| t < table.types@.len() && table.types@[t as int].file == f implies placed_at(
                &tree,
                t,
                file_path_of(table, t as int),
            ) by {
                assert(ts_v.contains(t));
                let k = choose|k: int| 0 <= k < ts_v.len() && ts_v[k] == t;
                let pre = if at < t0.nodes@.len() { t0.nodes@[at as int].types@ } else { Seq::empty() };
                assert(tree.nodes@[at as int].types@[pre.len() + k] == t);
                assert(tree.nodes@[at as int].types@.contains(t));
            }
        }
        let mut q: usize = 0;
        while q < ts.len()
            invariant
                table.wf(),
                f < table.files@.len(),
                ts@ == ts_v,
                forall|t: usize| ts_v.contains(t) <==> (t < table.types@.len() && table.types@[t as int].file == f),
                forall|k: int| 0 <= k < ts_v.len() ==> ts_v[k] < table.types@.len(),
                q <= ts@.len(),
                tree.wf(),
                holds_all(table, &tree, f as int),
                holds_only(table, &tree),
                forall|t: usize| t < table.types@.len() && table.types@[t as int].file == f ==> placed_at(
                    &tree,
                    t,
                    file_path_of(table, t as int),
                ),
                forall|k: int| 0 <= k < q ==> {
                    let t = #[trigger] ts_v[k];
                    table.types@[t as int].name is QualifiedName ==> placed_at(
                        &tree,
                        t,
                        file_path_of(table, t as int) + spec_name_segments(table.types@[t as int].name),
                    )
                },
            decreases ts@.len() - q,
        {
            let t = ts[q];
            match &table.types[t].name {
                TypeIdent::QualifiedName(_) => {
                    let full = mod_path(&table.files[f], &table.types[t].name);
                    let mut one: Vec<usize> = Vec::new();
                    one.push(t);
                    let ghost t1 = tree;
                    let ghost one_v = one@;
                    let at2 = tree.insert_path(&full, one);
                    proof {
                        lemma_holds_kept(table, &t1, &tree, f as int);
                        assert(ts_v.contains(t));
                        assert forall|qq: int| 0 <= qq < one_v.len() implies type_path_ok(table, &tree, at2 as int, #[trigger] one_v[qq]) by {
                            assert(one_v[qq] == t);
                        }
                        lemma_only_kept(table, &t1, &tree, at2 as int, one_v);
                        assert forall|u: usize| u < table.types@.len() && table.types@[u as int].file == f implies placed_at(
                            &tree,
                            u,
                            file_path_of(table, u as int),
                        ) by {
                            lemma_placed_kept(&t1, &tree, u, file_path_of(table, u as int));
                        }
                        assert forall|k: int| 0 <= k < q + 1 implies {
                            let u = #[trigger] ts_v[k];
                            table.types@[u as int].name is QualifiedName ==> placed_at(
                                &tree,
                                u,
                                file_path_of(table, u as int) + spec_name_segments(table.types@[u as int].name),
                            )
                        } by {
                            let u = ts_v[k];
                            if k < q {
                                if table.types@[u as int].name is QualifiedName {
                                    lemma_placed_kept(&t1, &tree, u, file_path_of(table, u as int) + spec_name_segments(table.types@[u as int].name));
                                }
                            } else {
                                assert(u == t);
                                assert(ts_v.contains(t));
                                assert(table.types@[t as int].file == f);
                                assert(node_path(&tree, at2 as int) == file_path_of(table, t as int) + spec_name_segments(table.types@[t as int].name));
                                let pre = if at2 < t1.nodes@.len() { t1.nodes@[at2 as int].types@ } else { Seq::empty() };
                                assert(tree.nodes@[at2 as int].types@[pre.len() as int] == t);
                                assert(tree.nodes@[at2 as int].types@.contains(t));
                            }
                        }
                    }
                },
                _ => {},
            }
            q += 1;
        }
        proof {
            assert forall|t: usize|
                t < table.types@.len() && #[trigger] table.types@[t as int].file < f + 1 implies {
                    &&& placed_at(&tree, t, file_path_of(table, t as int))
                    &&& (table.types@[t as int].name is QualifiedName ==> placed_at(
                        &tree,
                        t,
                        file_path_of(table, t as int) + spec_name_segments(table.types@[t as int].name),
                    ))
                } by {
                if table.types@[t as int].file == f {
                    assert(ts_v.contains(t));
                    let k = choose|k: int| 0 <= k < ts_v.len() && ts_v[k] == t;
                    assert(ts_v[k] == t);
                }
            }
        }
        f += 1;
    }
    tree
}


/// A module of the finished tree.
pub struct ModDef {
    pub name: Identifier,
    pub types: Vec<usize>,
    pub children: Vec<ModDef>,
}

/// `m` is node `i` of the tree with its subtree, frozen.
pub open spec fn frozen_as(tree: &MutModDef, i: int, m: ModDef) -> bool
    decreases tree.nodes@.len() - i, tree.nodes@[i].children@.len() + 1,
{
    &&& 0 <= i < tree.nodes@.len()
    &&& m.name@ == tree.nodes@[i].name@
    &&& m.types@ == tree.nodes@[i].types@
    &&& frozen_list(tree, i, tree.nodes@[i].children@, m.children@)
}

/// Each of `ms` is the frozen subtree of the child of node `i` at the same
/// position of `cs`.
pub open spec fn frozen_list(tree: &MutModDef, i: int, cs: Seq<usize>, ms: Seq<ModDef>) -> bool
    decreases tree.nodes@.len() - i, cs.len(),
{
    &&& cs.len() == ms.len()
    &&& cs.len() > 0 ==> {
        &&& frozen_list(tree, i, cs.drop_last(), ms.drop_last())
        &&& i < cs.last() < tree.nodes@.len() ==> frozen_as(tree, cs.last() as int, ms.last())
    }
}

impl MutModDef {
    /// Freezes node `i` and its subtree into nested modules.
    pub fn to_mod_def(&self, i: usize) -> (r: ModDef)
        requires
            self.wf(),
            i < self.nodes@.len(),
        ensures
            frozen_as(self, i as int, r),
        decreases self.nodes@.len() - i,
    {
        let node = &self.nodes[i];
        let mut children: Vec<ModDef> = Vec::new();
        let mut k: usize = 0;
        while k < node.children.len()
            invariant
                self.wf(),
                i < self.nodes@.len(),
                *node == self.nodes@[i as int],
                k <= node.children@.len(),
                frozen_list(self, i as int, node.children@.subrange(0, k as int), children@),
            decreases node.children@.len() - k,
        {
            let c = node.children[k];
            assert(i < c < self.nodes@.len());
            let m = self.to_mod_def(c);
            let ghost old_c = children@;
            children.push(m);
            assert(node.children@.subrange(0, k + 1).drop_last() =~= node.children@.subrange(0, k as int));
            assert(children@.drop_last() =~= old_c);
            k += 1;
        }
        assert(node.children@.subrange(0, k as int) =~= node.children@);
        let r = ModDef { name: node.name.copy(), types: node.types.clone(), children };
        assert(r.types@ =~= node.types@);
        r
    }
}

/// Builds the module tree of a table and freezes it.
pub fn mod_def_from(table: &TypeTable) -> (r: ModDef)
    requires
        table.wf(),
    ensures
        exists|tree: MutModDef|
            tree.wf() && holds_all(table, &tree, table.files@.len() as int) && holds_only(table, &tree)
                && frozen_as(&tree, 0, r),
{
    let tree = build_mod_tree(table);
    tree.to_mod_def(0)
}

}
