//! The interface catalog: a package-path-indexed trie of registered
//! interfaces. Each node carries one path segment's name, the interfaces
//! registered under exactly that path, and the sub-packages one level down.
//! Registration builds missing path segments on demand; resolution walks a
//! full vendor path and picks the first registered interface with the asked
//! name and a compatible version.

use vstd::prelude::*;
use std::rc::Rc;
use crate::path::Path;
use crate::path::rc_clone;
use crate::interface::Interface;
use crate::interface::InterfaceView;
use crate::interface::dep_views;
use crate::interface::dep_includes;
use crate::interface::lemma_dep_views;
use crate::interface::rc_list_includes;
use crate::version::InterfaceVersion;
use crate::version::compatible;

verus! {

/// One level of the interface catalog.
pub struct InterfaceHierarchy {
    /// Name of the hierarchy node: one package path segment.
    pub name: String,
    /// Interfaces registered at the current hierarchy level.
    pub ints: Vec<Rc<Interface>>,
    /// Tree of subpackages.
    pub subs: Vec<InterfaceHierarchy>,
}

/// Mathematical value of a catalog level.
#[verifier::ext_equal]
pub struct CatalogView {
    pub name: Seq<char>,
    pub ints: Seq<InterfaceView>,
    pub subs: Seq<CatalogView>,
}

/// The mathematical value of a catalog level, subpackages included.
pub open spec fn catalog_view(h: InterfaceHierarchy) -> CatalogView
    decreases h, 1int,
{
    CatalogView { name: h.name@, ints: dep_views(h.ints@), subs: catalog_views(h.subs@) }
}

/// The mathematical values of a list of catalog levels, in order.
pub open spec fn catalog_views(s: Seq<InterfaceHierarchy>) -> Seq<CatalogView>
    decreases s, 0int,
{
    if s.len() == 0 {
        Seq::empty()
    } else {
        catalog_views(s.drop_last()).push(catalog_view(s.last()))
    }
}

impl View for InterfaceHierarchy {
    type V = CatalogView;

    open spec fn view(&self) -> CatalogView {
        catalog_view(*self)
    }
}

/// `catalog_views` is the elementwise image of its argument.
pub proof fn lemma_catalog_views(s: Seq<InterfaceHierarchy>)
    ensures
        catalog_views(s).len() == s.len(),
        forall|i: int| 0 <= i < s.len() ==> #[trigger] catalog_views(s)[i] == s[i]@,
    decreases s.len(),
{
    if s.len() > 0 {
        lemma_catalog_views(s.drop_last());
    }
}

/// Whether some sub-package carries the given segment name.
pub open spec fn has_child(s: Seq<CatalogView>, name: Seq<char>) -> bool {
    exists|i: int| 0 <= i < s.len() && s[i].name == name
}

/// The index of the sub-package carrying the given segment name.
pub open spec fn index_of_child(s: Seq<CatalogView>, name: Seq<char>) -> int {
    choose|i: int| 0 <= i < s.len() && s[i].name == name
}

/// No two sub-packages of one level share a segment name.
pub open spec fn unique_child_names(s: Seq<CatalogView>) -> bool {
    forall|i: int, j: int| 0 <= i < j < s.len() ==> s[i].name != s[j].name
}

/// The catalog invariant: at every level the sub-package names are unique.
pub open spec fn catalog_wf(c: CatalogView) -> bool
    decreases c,
{
    unique_child_names(c.subs) && forall|t: int|
        0 <= t < c.subs.len() ==> catalog_wf(#[trigger] c.subs[t])
}

/// Under unique child names, the index a segment name designates is the
/// index of any sub-package carrying it.
pub proof fn lemma_index_of_child(s: Seq<CatalogView>, name: Seq<char>, k: int)
    requires
        unique_child_names(s),
        0 <= k < s.len(),
        s[k].name == name,
    ensures
        index_of_child(s, name) == k,
{
    assert(has_child(s, name));
    let i = index_of_child(s, name);
    assert(0 <= i < s.len() && s[i].name == name);
}

/// What registering an interface under a path does to a catalog level:
/// starting at segment `k` of the path, it walks or builds one node per
/// remaining segment and files the interface at the last one, once.
pub open spec fn catalog_insert(
    c: CatalogView,
    path: Seq<Seq<char>>,
    k: int,
    i: InterfaceView,
) -> CatalogView
    decreases path.len() - k,
{
    if k >= path.len() {
        CatalogView {
            ints: if dep_includes(c.ints, i) {
                c.ints
            } else {
                c.ints.push(i)
            },
            ..c
        }
    } else if has_child(c.subs, path[k]) {
        let idx = index_of_child(c.subs, path[k]);
        CatalogView { subs: c.subs.update(idx, catalog_insert(c.subs[idx], path, k + 1, i)), ..c }
    } else {
        let fresh = CatalogView { name: path[k], ints: Seq::empty(), subs: Seq::empty() };
        CatalogView { subs: c.subs.push(catalog_insert(fresh, path, k + 1, i)), ..c }
    }
}

/// The first interface in the list with the asked name and a version
/// compatible with the asked one, if any.
pub open spec fn find_compatible(
    ints: Seq<InterfaceView>,
    name: Seq<char>,
    ver: InterfaceVersion,
) -> Option<InterfaceView>
    decreases ints.len(),
{
    if ints.len() == 0 {
        None
    } else if ints[0].name == name && compatible(ints[0].ver, ver) {
        Some(ints[0])
    } else {
        find_compatible(ints.skip(1), name, ver)
    }
}

/// What resolving a name and version under a path yields: walk the path
/// from segment `k`; at its end, the first compatible interface; `None`
/// when a segment is missing or nothing there fits.
pub open spec fn catalog_resolve(
    c: CatalogView,
    path: Seq<Seq<char>>,
    k: int,
    name: Seq<char>,
    ver: InterfaceVersion,
) -> Option<InterfaceView>
    decreases path.len() - k,
{
    if k >= path.len() {
        find_compatible(c.ints, name, ver)
    } else if has_child(c.subs, path[k]) {
        catalog_resolve(c.subs[index_of_child(c.subs, path[k])], path, k + 1, name, ver)
    } else {
        None
    }
}

/// Push the chain's node names onto `out`, from the root to the given node.
fn collect_segment_names(p: &Path, out: &mut Vec<String>)
    ensures
        final(out)@.len() == old(out)@.len() + p@.len(),
        forall|t: int| 0 <= t < old(out)@.len() ==> #[trigger] final(out)@[t] == old(out)@[t],
        forall|t: int|
            old(out)@.len() <= t < final(out)@.len() ==> #[trigger] final(out)@[t]@ == p@[t - old(
                out,
            )@.len()],
    decreases *p,
{
    match &p.prev {
        Option::None => {
            out.push(p.name.clone());
        },
        Option::Some(q) => {
            collect_segment_names(q, out);
            proof {
                assert(p@.drop_last() =~= q@);
            }
            out.push(p.name.clone());
        },
    }
}

/// Find the first sub-package with the given segment name.
fn find_child_index(subs: &Vec<InterfaceHierarchy>, name: &String) -> (r: Option<usize>)
    ensures
        match r {
            Some(k) => {
                &&& k < subs@.len()
                &&& catalog_views(subs@)[k as int].name == name@
                &&& forall|t: int| 0 <= t < k ==> catalog_views(subs@)[t].name != name@
            },
            None => !has_child(catalog_views(subs@), name@),
        },
{
    proof {
        lemma_catalog_views(subs@);
    }
    let n = subs.len();
    let mut j: usize = 0;
    while j < n
        invariant
            j <= n,
            n == subs@.len(),
            catalog_views(subs@).len() == n,
            forall|t: int| 0 <= t < subs@.len() ==> #[trigger] catalog_views(subs@)[t] == subs@[t]@,
            forall|t: int| 0 <= t < j ==> catalog_views(subs@)[t].name != name@,
        decreases n - j,
    {
        if subs[j].name.eq(name) {
            return Some(j);
        }
        j = j + 1;
    }
    None
}

/// File an interface at the node the path's remaining segments designate,
/// building missing segments on demand.
fn register_at(h: &mut InterfaceHierarchy, names: &Vec<String>, k: usize, i: &Rc<Interface>)
    requires
        catalog_wf(old(h)@),
        k <= names@.len(),
    ensures
        final(h)@ == catalog_insert(
            old(h)@,
            names@.map_values(|s: String| s@),
            k as int,
            i@,
        ),
        catalog_wf(final(h)@),
        final(h)@.name == old(h)@.name,
    decreases names@.len() - k,
{
    let ghost path = names@.map_values(|s: String| s@);
    if k == names.len() {
        if !rc_list_includes(&h.ints, i) {
            let ghost pre = h.ints@;
            h.ints.push(rc_clone(i));
            proof {
                assert(h.ints@.drop_last() =~= pre);
                assert(dep_views(h.ints@) == dep_views(pre).push(i@));
            }
        }
        proof {
            assert(h@ =~= catalog_insert(old(h)@, path, k as int, i@));
        }
    } else {
        match find_child_index(&h.subs, &names[k]) {
            Some(idx) => {
                proof {
                    lemma_catalog_views(h.subs@);
                    lemma_index_of_child(catalog_views(h.subs@), names@[k as int]@, idx as int);
                }
                let child = &mut h.subs[idx];
                register_at(child, names, k + 1, i);
                proof {
                    lemma_catalog_views(h.subs@);
                    assert(catalog_views(h.subs@) =~= catalog_views(old(h).subs@).update(
                        idx as int,
                        catalog_insert(
                            catalog_views(old(h).subs@)[idx as int],
                            path,
                            k + 1,
                            i@,
                        ),
                    ));
                    assert(h@ =~= catalog_insert(old(h)@, path, k as int, i@));
                    assert forall|t: int| 0 <= t < h@.subs.len() implies catalog_wf(
                        #[trigger] h@.subs[t],
                    ) by {
                        if t != idx {
                            assert(h@.subs[t] == old(h)@.subs[t]);
                        }
                    }
                    assert forall|a: int, b: int|
                        0 <= a < b < h@.subs.len() implies h@.subs[a].name != h@.subs[b].name by {
                        assert(h@.subs[a].name == old(h)@.subs[a].name);
                        assert(h@.subs[b].name == old(h)@.subs[b].name);
                    }
                }
            },
            None => {
                let mut child = InterfaceHierarchy {
                    name: names[k].clone(),
                    ints: Vec::new(),
                    subs: Vec::new(),
                };
                proof {
                    assert(child@.subs =~= Seq::<CatalogView>::empty());
                    assert(child@.ints =~= Seq::<InterfaceView>::empty());
                    assert(child@ =~= (CatalogView {
                        name: path[k as int],
                        ints: Seq::empty(),
                        subs: Seq::empty(),
                    }));
                }
                register_at(&mut child, names, k + 1, i);
                let ghost presubs = h.subs@;
                h.subs.push(child);
                proof {
                    assert(h.subs@.drop_last() =~= presubs);
                    assert(catalog_views(h.subs@) == catalog_views(presubs).push(
                        h.subs@.last()@,
                    ));
                    assert(h@ =~= catalog_insert(old(h)@, path, k as int, i@));
                    lemma_catalog_views(h.subs@);
                    assert forall|a: int, b: int|
                        0 <= a < b < h@.subs.len() implies h@.subs[a].name != h@.subs[b].name by {
                        if b == h@.subs.len() - 1 {
                            assert(h@.subs[a] == old(h)@.subs[a]);
                        }
                    }
                    assert forall|t: int| 0 <= t < h@.subs.len() implies catalog_wf(
                        #[trigger] h@.subs[t],
                    ) by {
                        if t < h@.subs.len() - 1 {
                            assert(h@.subs[t] == old(h)@.subs[t]);
                        }
                    }
                }
            },
        }
    }
}

/// Resolve a name and version under the path's remaining segments.
fn resolve_at(
    h: &InterfaceHierarchy,
    names: &Vec<String>,
    k: usize,
    name: &String,
    ver: &InterfaceVersion,
) -> (r: Option<Rc<Interface>>)
    requires
        catalog_wf(h@),
        k <= names@.len(),
    ensures
        ({
            let res = catalog_resolve(
                h@,
                names@.map_values(|s: String| s@),
                k as int,
                name@,
                *ver,
            );
            match r {
                Some(rc) => res == Some(rc@),
                None => res is None,
            }
        }),
    decreases names@.len() - k,
{
    let ghost path = names@.map_values(|s: String| s@);
    if k == names.len() {
        proof {
            lemma_dep_views(h.ints@);
            assert(dep_views(h.ints@).skip(0) =~= dep_views(h.ints@));
            assert(catalog_resolve(h@, path, k as int, name@, *ver) == find_compatible(
                h@.ints,
                name@,
                *ver,
            ));
        }
        let ghost iv = dep_views(h.ints@);
        let n = h.ints.len();
        let mut j: usize = 0;
        loop
            invariant
                j <= n,
                n == h.ints@.len(),
                iv == dep_views(h.ints@),
                iv.len() == n,
                forall|t: int| 0 <= t < h.ints@.len() ==> #[trigger] dep_views(h.ints@)[t] == (
                *h.ints@[t])@,
                find_compatible(iv, name@, *ver) == find_compatible(
                    iv.skip(j as int),
                    name@,
                    *ver,
                ),
                catalog_resolve(
                    h@,
                    names@.map_values(|s: String| s@),
                    k as int,
                    name@,
                    *ver,
                ) == find_compatible(iv, name@, *ver),
            decreases n - j,
        {
            if j == n {
                proof {
                    assert(iv.skip(j as int) =~= Seq::<InterfaceView>::empty());
                }
                return None;
            }
            let c: &Interface = &*h.ints[j];
            proof {
                assert(iv.skip(j as int)[0] == iv[j as int]);
            }
            if c.name.eq(name) && c.ver.is_compatible(ver) {
                proof {
                    assert(find_compatible(iv.skip(j as int), name@, *ver) == Some(
                        iv[j as int],
                    ));
                }
                return Some(rc_clone(&h.ints[j]));
            }
            proof {
                assert(iv.skip(j as int).skip(1) =~= iv.skip(j + 1));
            }
            j = j + 1;
        }
    } else {
        match find_child_index(&h.subs, &names[k]) {
            None => None,
            Some(idx) => {
                proof {
                    lemma_catalog_views(h.subs@);
                    lemma_index_of_child(catalog_views(h.subs@), names@[k as int]@, idx as int);
                }
                resolve_at(&h.subs[idx], names, k + 1, name, ver)
            },
        }
    }
}

impl InterfaceHierarchy {
    /// A catalog level with the given segment name and nothing in it.
    pub fn new(name: String) -> (h: Self)
        ensures
            h@ == (CatalogView { name: name@, ints: Seq::empty(), subs: Seq::empty() }),
            catalog_wf(h@),
    {
        let h = InterfaceHierarchy { name, ints: Vec::new(), subs: Vec::new() };
        proof {
            assert(h@.ints =~= Seq::<InterfaceView>::empty());
            assert(h@.subs =~= Seq::<CatalogView>::empty());
            assert(h@ =~= (CatalogView { name: h.name@, ints: Seq::empty(), subs: Seq::empty() }));
        }
        h
    }

    /// The package path segment this level stands for.
    pub fn current_package(&self) -> (r: &String)
        ensures
            r@ == self@.name,
    {
        &self.name
    }

    /// All interfaces registered at the current level of the package.
    pub fn interfaces(&self) -> (r: &Vec<Rc<Interface>>)
        ensures
            dep_views(r@) == self@.ints,
    {
        &self.ints
    }

    /// All packages one step lower in the hierarchy.
    pub fn sub_packages(&self) -> (r: &Vec<InterfaceHierarchy>)
        ensures
            catalog_views(r@) == self@.subs,
    {
        &self.subs
    }

    /// Register an interface, indexing it by its package path and building
    /// missing path segments on demand. Registering the same interface
    /// again changes nothing.
    pub fn register(&mut self, i: &Rc<Interface>)
        requires
            catalog_wf(old(self)@),
        ensures
            final(self)@ == catalog_insert(old(self)@, i@.pack, 0, i@),
            catalog_wf(final(self)@),
    {
        let mut names: Vec<String> = Vec::new();
        collect_segment_names(&i.pack.path, &mut names);
        proof {
            assert(names@.map_values(|s: String| s@) =~= i@.pack);
        }
        register_at(self, &names, 0, i);
    }

    /// Resolve an interface by its full vendor path, name and version: the
    /// first registered interface at that path with the asked name and a
    /// version compatible with the asked one. An empty result is a normal
    /// answer, not a failure.
    pub fn resolve(&self, path: &Path, name: &String, ver: &InterfaceVersion) -> (r: Option<
        Rc<Interface>,
    >)
        requires
            catalog_wf(self@),
        ensures
            ({
                let res = catalog_resolve(self@, path@, 0, name@, *ver);
                match r {
                    Some(rc) => res == Some(rc@),
                    None => res is None,
                }
            }),
    {
        let mut names: Vec<String> = Vec::new();
        collect_segment_names(path, &mut names);
        proof {
            assert(names@.map_values(|s: String| s@) =~= path@);
        }
        resolve_at(self, &names, 0, name, ver)
    }
}

} // verus!
