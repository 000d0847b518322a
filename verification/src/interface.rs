//! Interfaces, packages and interface dependencies. An interface is
//! identified by its name, version, owning package path, mandated service
//! list and dependency list: all five must match for two interfaces to be
//! the same. Interfaces are immutable once built and shared by reference;
//! their service and dependency lists keep the order they were built in.

use vstd::prelude::*;
use std::rc::Rc;
use core::cmp::Ordering;
use crate::path::Path;
use crate::path::rc_clone;
use crate::path::compare_str;
use crate::path::lex_cmp_chars;
use crate::path::path_order;
use crate::version::InterfaceVersion;
use crate::version::version_cmp;
use crate::service::Service;
use crate::service::ServiceView;

verus! {

/// Package contains a set of interfaces that solve similar tasks or have
/// the same vendor.
#[derive(PartialEq, Eq)]
pub struct Package {
    /// The absolute path of the package in the vendor namespace.
    pub path: Path,
}

impl View for Package {
    type V = Seq<Seq<char>>;

    /// A package is modeled by its path's names, root to leaf.
    open spec fn view(&self) -> Seq<Seq<char>> {
        self.path@
    }
}

impl Package {
    /// Make a package addressed by the given path.
    pub fn new(path: Path) -> (p: Self)
        ensures
            p@ == path@,
    {
        Package { path }
    }

    /// The absolute path to this package.
    pub fn path(&self) -> (r: &Path)
        ensures
            r@ == self@,
    {
        &self.path
    }
}

/// Dependency on interface implementation: the interfaces that must already
/// be implemented by an object before some other interface can be.
#[derive(PartialEq, Eq)]
pub struct InterfaceDependency {
    /// The interfaces this dependency pins, by exact identity, in the order
    /// they were added.
    pub tree: Vec<Rc<Interface>>,
}

/// Interface forms a set of services with defined functionality. Objects
/// declare that they implement it; the declaration is validated against the
/// interface's mandated services and dependencies.
#[derive(PartialEq, Eq)]
pub struct Interface {
    pub name: String,
    pub dep: InterfaceDependency,
    pub ver: InterfaceVersion,
    pub pack: Rc<Package>,
    pub serv: Vec<Service>,
}

/// Mathematical value of an interface: all five identity components.
#[verifier::ext_equal]
pub struct InterfaceView {
    pub name: Seq<char>,
    pub ver: InterfaceVersion,
    pub pack: Seq<Seq<char>>,
    pub serv: Seq<ServiceView>,
    pub dep: Seq<InterfaceView>,
}

/// The mathematical value of an interface, its dependencies included.
pub open spec fn interface_view(i: Interface) -> InterfaceView
    decreases i, 1int,
{
    InterfaceView {
        name: i.name@,
        ver: i.ver,
        pack: (*i.pack).path@,
        serv: i.serv@.map_values(|s: Service| s@),
        dep: dep_views(i.dep.tree@),
    }
}

/// The mathematical values of a list of shared interfaces, in order.
pub open spec fn dep_views(s: Seq<Rc<Interface>>) -> Seq<InterfaceView>
    decreases s, 0int,
{
    if s.len() == 0 {
        Seq::empty()
    } else {
        dep_views(s.drop_last()).push(interface_view(*s.last()))
    }
}

impl View for Interface {
    type V = InterfaceView;

    open spec fn view(&self) -> InterfaceView {
        interface_view(*self)
    }
}

/// Whether a list of interface values contains the given value exactly.
pub open spec fn dep_includes(deps: Seq<InterfaceView>, v: InterfaceView) -> bool {
    exists|i: int| 0 <= i < deps.len() && deps[i] == v
}

/// `dep_views` is the elementwise image of its argument.
pub proof fn lemma_dep_views(s: Seq<Rc<Interface>>)
    ensures
        dep_views(s).len() == s.len(),
        forall|i: int| 0 <= i < s.len() ==> #[trigger] dep_views(s)[i] == (*s[i])@,
    decreases s.len(),
{
    if s.len() > 0 {
        lemma_dep_views(s.drop_last());
    }
}

/// Order on services: by name, then by version.
pub open spec fn service_cmp(a: ServiceView, b: ServiceView) -> Ordering {
    let c = lex_cmp_chars(a.name, b.name);
    if c == Ordering::Equal {
        version_cmp(a.ver, b.ver)
    } else {
        c
    }
}

/// Lexicographic order on service lists: the first differing service
/// decides; a strict prefix sorts first.
pub open spec fn services_cmp(a: Seq<ServiceView>, b: Seq<ServiceView>) -> Ordering
    decreases a.len(),
{
    if a.len() == 0 && b.len() == 0 {
        Ordering::Equal
    } else if a.len() == 0 {
        Ordering::Less
    } else if b.len() == 0 {
        Ordering::Greater
    } else {
        let c = service_cmp(a[0], b[0]);
        if c == Ordering::Equal {
            services_cmp(a.skip(1), b.skip(1))
        } else {
            c
        }
    }
}

/// Order on interfaces, used only for deterministic storage: by name, then
/// version, then package path, then service list, then dependency list,
/// each step short-circuiting on the first inequality.
pub open spec fn interface_cmp(a: InterfaceView, b: InterfaceView) -> Ordering
    decreases a, 1int,
{
    let c1 = lex_cmp_chars(a.name, b.name);
    if c1 != Ordering::Equal {
        c1
    } else {
        let c2 = version_cmp(a.ver, b.ver);
        if c2 != Ordering::Equal {
            c2
        } else {
            let c3 = path_order(a.pack, b.pack);
            if c3 != Ordering::Equal {
                c3
            } else {
                let c4 = services_cmp(a.serv, b.serv);
                if c4 != Ordering::Equal {
                    c4
                } else {
                    deps_cmp(a.dep, b.dep)
                }
            }
        }
    }
}

/// Lexicographic order on dependency lists.
pub open spec fn deps_cmp(a: Seq<InterfaceView>, b: Seq<InterfaceView>) -> Ordering
    decreases a, 0int,
{
    if a.len() == 0 && b.len() == 0 {
        Ordering::Equal
    } else if a.len() == 0 {
        Ordering::Less
    } else if b.len() == 0 {
        Ordering::Greater
    } else {
        let c = interface_cmp(a[0], b[0]);
        if c == Ordering::Equal {
            deps_cmp(a.skip(1), b.skip(1))
        } else {
            c
        }
    }
}

impl InterfaceDependency {
    /// Create new InterfaceDependency with an empty dependency list.
    pub fn new() -> (d: Self)
        ensures
            d.tree@.len() == 0,
            dep_views(d.tree@) == Seq::<InterfaceView>::empty(),
    {
        InterfaceDependency { tree: Vec::new() }
    }

    /// Tree of interfaces that are in this dependency.
    pub fn tree(&self) -> (r: &Vec<Rc<Interface>>)
        ensures
            r == self.tree,
    {
        &self.tree
    }

    /// Tree of interfaces that are in this dependency.
    pub fn tree_mut(&mut self) -> (r: &mut Vec<Rc<Interface>>)
        ensures
            *r == old(self).tree,
            final(self).tree == *final(r),
    {
        &mut self.tree
    }

    /// Add a new interface to the dependency; one already present by exact
    /// identity is not added again.
    pub fn add(&mut self, interface_rc: &Rc<Interface>)
        ensures
            dep_includes(dep_views(old(self).tree@), interface_rc@) ==> *final(self) == *old(self),
            !dep_includes(dep_views(old(self).tree@), interface_rc@) ==> dep_views(
                final(self).tree@,
            ) == dep_views(old(self).tree@).push(interface_rc@),
    {
        if !self.includes(interface_rc) {
            let ghost pre = self.tree@;
            self.tree.push(rc_clone(interface_rc));
            proof {
                assert(self.tree@.drop_last() =~= pre);
                assert(dep_views(self.tree@) == dep_views(pre).push(interface_rc@));
            }
        }
    }

    /// True if the given interface is in this dependency by exact identity.
    pub fn includes(&self, i: &Interface) -> (r: bool)
        ensures
            r == dep_includes(dep_views(self.tree@), i@),
    {
        rc_list_includes(&self.tree, i)
    }
}

/// Whether a list of shared interfaces holds one equal to `i` by exact
/// identity.
pub(crate) fn rc_list_includes(tree: &Vec<Rc<Interface>>, i: &Interface) -> (r: bool)
    ensures
        r == dep_includes(dep_views(tree@), i@),
{
    proof {
        lemma_dep_views(tree@);
    }
    let n = tree.len();
    let mut j: usize = 0;
    while j < n
        invariant
            j <= n,
            n == tree@.len(),
            dep_views(tree@).len() == n,
            forall|k: int| 0 <= k < tree@.len() ==> #[trigger] dep_views(tree@)[k] == (
            *tree@[k])@,
            forall|k: int| 0 <= k < j ==> dep_views(tree@)[k] != i@,
        decreases n - j,
    {
        if tree[j].eq_interface(i) {
            proof {
                assert(dep_views(tree@)[j as int] == i@);
            }
            return true;
        }
        j = j + 1;
    }
    false
}

/// Lexicographic comparison of two service lists.
fn services_compare(a: &Vec<Service>, b: &Vec<Service>) -> (r: Ordering)
    ensures
        r == services_cmp(a@.map_values(|s: Service| s@), b@.map_values(|s: Service| s@)),
{
    let ghost av = a@.map_values(|s: Service| s@);
    let ghost bv = b@.map_values(|s: Service| s@);
    let mut j: usize = 0;
    proof {
        assert(av.skip(0) =~= av);
        assert(bv.skip(0) =~= bv);
    }
    loop
        invariant
            j <= a@.len(),
            j <= b@.len(),
            av == a@.map_values(|s: Service| s@),
            bv == b@.map_values(|s: Service| s@),
            av.len() == a@.len(),
            bv.len() == b@.len(),
            services_cmp(av, bv) == services_cmp(av.skip(j as int), bv.skip(j as int)),
        decreases a@.len() - j,
    {
        if j == a.len() && j == b.len() {
            proof {
                assert(av.skip(j as int) =~= Seq::<ServiceView>::empty());
                assert(bv.skip(j as int) =~= Seq::<ServiceView>::empty());
            }
            return Ordering::Equal;
        }
        if j == a.len() {
            proof {
                assert(av.skip(j as int) =~= Seq::<ServiceView>::empty());
            }
            return Ordering::Less;
        }
        if j == b.len() {
            proof {
                assert(bv.skip(j as int) =~= Seq::<ServiceView>::empty());
            }
            return Ordering::Greater;
        }
        let sa = &a[j];
        let sb = &b[j];
        proof {
            assert(av.skip(j as int)[0] == av[j as int]);
            assert(bv.skip(j as int)[0] == bv[j as int]);
        }
        let c = compare_str(sa.name.as_str(), sb.name.as_str());
        let c = match c {
            Ordering::Equal => sa.ver.compare(&sb.ver),
            _ => c,
        };
        match c {
            Ordering::Equal => {
                proof {
                    assert(service_cmp(av[j as int], bv[j as int]) == Ordering::Equal);
                    assert(av.skip(j as int).skip(1) =~= av.skip(j + 1));
                    assert(bv.skip(j as int).skip(1) =~= bv.skip(j + 1));
                }
                j = j + 1;
            },
            _ => {
                return c;
            },
        }
    }
}

impl Interface {
    /// Build an interface from all of its identity fields.
    pub fn new(
        name: String,
        ver: InterfaceVersion,
        pack: Rc<Package>,
        serv: Vec<Service>,
        dep: InterfaceDependency,
    ) -> (i: Self)
        ensures
            i@ == (InterfaceView {
                name: name@,
                ver,
                pack: pack@,
                serv: serv@.map_values(|s: Service| s@),
                dep: dep_views(dep.tree@),
            }),
    {
        Interface { name, dep, ver, pack, serv }
    }

    /// Package where this interface is located.
    pub fn package(&self) -> (r: &Rc<Package>)
        ensures
            r@ == self@.pack,
    {
        &self.pack
    }

    /// The name of the interface as it appears in the package.
    pub fn name(&self) -> (r: &String)
        ensures
            r@ == self@.name,
    {
        &self.name
    }

    /// The version of this interface.
    pub fn version(&self) -> (r: &InterfaceVersion)
        ensures
            r == self@.ver,
    {
        &self.ver
    }

    /// List of all services that must be implemented by this interface's
    /// implementer. This excludes the services of dependency interfaces.
    pub fn services(&self) -> (r: &Vec<Service>)
        ensures
            r@.map_values(|s: Service| s@) == self@.serv,
    {
        &self.serv
    }

    /// List of dependency interfaces that must be implemented in order to
    /// allow implementing this interface.
    pub fn dependency(&self) -> (r: &InterfaceDependency)
        ensures
            dep_views(r.tree@) == self@.dep,
    {
        &self.dep
    }

    /// Whether this interface and the other are the same by exact identity:
    /// equal names, versions, package paths, service lists and dependency
    /// lists.
    pub fn eq_interface(&self, other: &Interface) -> (r: bool)
        ensures
            r == (self@ == other@),
        decreases *self,
    {
        if !self.name.eq(&other.name) {
            return false;
        }
        if !(self.ver == other.ver) {
            return false;
        }
        if !self.pack.path.eq_path(&other.pack.path) {
            return false;
        }
        if self.serv.len() != other.serv.len() {
            proof {
                assert(self@.serv.len() != other@.serv.len());
            }
            return false;
        }
        let n = self.serv.len();
        let mut j: usize = 0;
        while j < n
            invariant
                j <= n,
                n == self.serv@.len() == other.serv@.len(),
                forall|k: int| 0 <= k < j ==> self.serv@[k]@ == other.serv@[k]@,
            decreases n - j,
        {
            if !self.serv[j].eq_service(&other.serv[j]) {
                proof {
                    assert(self@.serv[j as int] == self.serv@[j as int]@);
                    assert(other@.serv[j as int] == other.serv@[j as int]@);
                }
                return false;
            }
            j = j + 1;
        }
        proof {
            lemma_dep_views(self.dep.tree@);
            lemma_dep_views(other.dep.tree@);
        }
        if self.dep.tree.len() != other.dep.tree.len() {
            proof {
                assert(self@.dep.len() != other@.dep.len());
            }
            return false;
        }
        let m = self.dep.tree.len();
        let mut k: usize = 0;
        while k < m
            invariant
                k <= m,
                m == self.dep.tree@.len() == other.dep.tree@.len(),
                dep_views(self.dep.tree@).len() == m,
                dep_views(other.dep.tree@).len() == m,
                forall|t: int| 0 <= t < self.dep.tree@.len() ==> #[trigger] dep_views(
                    self.dep.tree@,
                )[t] == (*self.dep.tree@[t])@,
                forall|t: int| 0 <= t < other.dep.tree@.len() ==> #[trigger] dep_views(
                    other.dep.tree@,
                )[t] == (*other.dep.tree@[t])@,
                forall|t: int|
                    0 <= t < k ==> dep_views(self.dep.tree@)[t] == dep_views(other.dep.tree@)[t],
            decreases m - k,
        {
            let da: &Interface = &*self.dep.tree[k];
            let db: &Interface = &*other.dep.tree[k];
            if !da.eq_interface(db) {
                proof {
                    assert(self@.dep[k as int] != other@.dep[k as int]);
                }
                return false;
            }
            k = k + 1;
        }
        proof {
            assert(self@.serv =~= other@.serv);
            assert(self@.dep =~= other@.dep);
            assert(self@ =~= other@);
        }
        true
    }

    /// A copy of this interface; the shared package and dependency
    /// references are shared, not copied.
    pub fn duplicate(&self) -> (r: Interface)
        ensures
            r@ == self@,
    {
        let n = self.dep.tree.len();
        let mut tree: Vec<Rc<Interface>> = Vec::new();
        let mut j: usize = 0;
        while j < n
            invariant
                j <= n,
                n == self.dep.tree@.len(),
                tree@.len() == j,
                forall|t: int| 0 <= t < j ==> #[trigger] tree@[t] == self.dep.tree@[t],
            decreases n - j,
        {
            tree.push(rc_clone(&self.dep.tree[j]));
            j = j + 1;
        }
        proof {
            assert(tree@ =~= self.dep.tree@);
        }
        let r = Interface {
            name: self.name.clone(),
            dep: InterfaceDependency { tree },
            ver: self.ver,
            pack: rc_clone(&self.pack),
            serv: crate::service::dup_services(&self.serv),
        };
        proof {
            assert(r@ =~= self@);
        }
        r
    }

    /// Order against another interface: by name, then version, then package
    /// path, then service list, then dependency list. Used only for
    /// deterministic storage, never for compatibility decisions.
    pub fn compare(&self, other: &Interface) -> (r: Ordering)
        ensures
            r == interface_cmp(self@, other@),
        decreases *self,
    {
        let c = compare_str(self.name.as_str(), other.name.as_str());
        if let Ordering::Less | Ordering::Greater = c {
            return c;
        }
        let c = self.ver.compare(&other.ver);
        if let Ordering::Less | Ordering::Greater = c {
            return c;
        }
        let c = self.pack.path.compare(&other.pack.path);
        if let Ordering::Less | Ordering::Greater = c {
            return c;
        }
        let c = services_compare(&self.serv, &other.serv);
        if let Ordering::Less | Ordering::Greater = c {
            return c;
        }
        proof {
            lemma_dep_views(self.dep.tree@);
            lemma_dep_views(other.dep.tree@);
            assert(dep_views(self.dep.tree@).skip(0) =~= dep_views(self.dep.tree@));
            assert(dep_views(other.dep.tree@).skip(0) =~= dep_views(other.dep.tree@));
        }
        let ghost av = dep_views(self.dep.tree@);
        let ghost bv = dep_views(other.dep.tree@);
        let na = self.dep.tree.len();
        let nb = other.dep.tree.len();
        let mut j: usize = 0;
        loop
            invariant
                j <= na,
                j <= nb,
                na == self.dep.tree@.len(),
                nb == other.dep.tree@.len(),
                av == dep_views(self.dep.tree@),
                bv == dep_views(other.dep.tree@),
                av.len() == na,
                bv.len() == nb,
                forall|t: int| 0 <= t < self.dep.tree@.len() ==> #[trigger] dep_views(
                    self.dep.tree@,
                )[t] == (*self.dep.tree@[t])@,
                forall|t: int| 0 <= t < other.dep.tree@.len() ==> #[trigger] dep_views(
                    other.dep.tree@,
                )[t] == (*other.dep.tree@[t])@,
                deps_cmp(av, bv) == deps_cmp(av.skip(j as int), bv.skip(j as int)),
                interface_cmp(self@, other@) == deps_cmp(av, bv),
            decreases na - j,
        {
            if j == na && j == nb {
                proof {
                    assert(av.skip(j as int) =~= Seq::<InterfaceView>::empty());
                    assert(bv.skip(j as int) =~= Seq::<InterfaceView>::empty());
                }
                return Ordering::Equal;
            }
            if j == na {
                proof {
                    assert(av.skip(j as int) =~= Seq::<InterfaceView>::empty());
                }
                return Ordering::Less;
            }
            if j == nb {
                proof {
                    assert(bv.skip(j as int) =~= Seq::<InterfaceView>::empty());
                }
                return Ordering::Greater;
            }
            let da: &Interface = &*self.dep.tree[j];
            let db: &Interface = &*other.dep.tree[j];
            proof {
                assert(av.skip(j as int)[0] == av[j as int]);
                assert(bv.skip(j as int)[0] == bv[j as int]);
            }
            let c = da.compare(db);
            match c {
                Ordering::Equal => {
                    proof {
                        assert(av.skip(j as int).skip(1) =~= av.skip(j + 1));
                        assert(bv.skip(j as int).skip(1) =~= bv.skip(j + 1));
                    }
                    j = j + 1;
                },
                _ => {
                    return c;
                },
            }
        }
    }
}

} // verus!
