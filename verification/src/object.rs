//! Objects of the network and their per-visibility registries. An object
//! owns, at each of the three visibility tiers, a set of services and a set
//! of sub-objects, plus the set of interfaces it implements. Names are
//! unique within one (object, tier) pair; sub-object ids are assigned from a
//! per-object monotonic counter and never reused.

use vstd::prelude::*;
use crate::service::Service;
use crate::service::ServiceView;
use crate::service::has_service_named;
use crate::service::dup_services;
use crate::service::index_of_service;
use crate::interface::Interface;
use crate::interface::InterfaceView;
use crate::interface::interface_view;

verus! {

/// The object of the network. An object contains services and sub-objects
/// at three visibility tiers, and can implement interfaces.
#[derive(PartialEq, Eq)]
pub struct Object {
    /// Name of this object, unique among siblings within one tier.
    pub name: String,
    /// Public service set.
    pub pubsrv: Vec<Service>,
    /// Internal service set.
    pub intsrv: Vec<Service>,
    /// Private service set.
    pub privsrv: Vec<Service>,
    /// Interfaces implemented.
    pub ints: Vec<Interface>,
    /// Public sub-object set.
    pub pubsub: Vec<ObjectVector>,
    /// Internal sub-object set.
    pub intsub: Vec<ObjectVector>,
    /// Private sub-object set.
    pub privsub: Vec<ObjectVector>,
    /// The next sub-object id this object will assign.
    pub next_id: u32,
}

/// Object and its id in the network. Allows distinguishing objects with the
/// same name on the same hierarchy level but in different tiers.
#[derive(PartialEq, Eq)]
pub struct ObjectVector {
    pub obj: Object,
    pub id: u32,
}

/// Mathematical value of a sub-object entry.
#[verifier::ext_equal]
pub struct ObjVecView {
    pub obj: ObjectView,
    pub id: nat,
}

/// Mathematical value of an object: its name, the service values per tier,
/// the implemented interface values, the sub-object values per tier and the
/// id counter.
#[verifier::ext_equal]
pub struct ObjectView {
    pub name: Seq<char>,
    pub pubsrv: Seq<ServiceView>,
    pub intsrv: Seq<ServiceView>,
    pub privsrv: Seq<ServiceView>,
    pub ints: Seq<InterfaceView>,
    pub pubsub: Seq<ObjVecView>,
    pub intsub: Seq<ObjVecView>,
    pub privsub: Seq<ObjVecView>,
    pub next_id: nat,
}

/// The mathematical values of a list of services, in order.
pub open spec fn service_views(s: Seq<Service>) -> Seq<ServiceView> {
    s.map_values(|x: Service| x@)
}

/// The mathematical values of a list of interfaces, in order.
pub open spec fn interface_views(s: Seq<Interface>) -> Seq<InterfaceView> {
    s.map_values(|x: Interface| interface_view(x))
}

/// The mathematical value of an object, its sub-objects included.
pub open spec fn object_view(o: Object) -> ObjectView
    decreases o, 1int,
{
    ObjectView {
        name: o.name@,
        pubsrv: service_views(o.pubsrv@),
        intsrv: service_views(o.intsrv@),
        privsrv: service_views(o.privsrv@),
        ints: interface_views(o.ints@),
        pubsub: sub_views(o.pubsub@),
        intsub: sub_views(o.intsub@),
        privsub: sub_views(o.privsub@),
        next_id: o.next_id as nat,
    }
}

/// The mathematical values of a list of sub-object entries, in order.
pub open spec fn sub_views(s: Seq<ObjectVector>) -> Seq<ObjVecView>
    decreases s, 0int,
{
    if s.len() == 0 {
        Seq::empty()
    } else {
        sub_views(s.drop_last()).push(
            ObjVecView { obj: object_view(s.last().obj), id: s.last().id as nat },
        )
    }
}

impl View for Object {
    type V = ObjectView;

    open spec fn view(&self) -> ObjectView {
        object_view(*self)
    }
}

impl View for ObjectVector {
    type V = ObjVecView;

    open spec fn view(&self) -> ObjVecView {
        ObjVecView { obj: object_view(self.obj), id: self.id as nat }
    }
}

/// `sub_views` is the elementwise image of its argument.
pub proof fn lemma_sub_views(s: Seq<ObjectVector>)
    ensures
        sub_views(s).len() == s.len(),
        forall|i: int| 0 <= i < s.len() ==> #[trigger] sub_views(s)[i] == s[i]@,
    decreases s.len(),
{
    if s.len() > 0 {
        lemma_sub_views(s.drop_last());
    }
}

/// No two services in the list share a name.
pub open spec fn unique_service_names(s: Seq<ServiceView>) -> bool {
    forall|i: int, j: int| 0 <= i < j < s.len() ==> s[i].name != s[j].name
}

/// Under per-tier name uniqueness, the index a name designates is the index
/// of any service carrying that name.
pub proof fn lemma_index_of_named_service(s: Seq<ServiceView>, name: Seq<char>, k: int)
    requires
        unique_service_names(s),
        0 <= k < s.len(),
        s[k].name == name,
    ensures
        index_of_service(s, name) == k,
{
    assert(has_service_named(s, name));
    let i = index_of_service(s, name);
    assert(0 <= i < s.len() && s[i].name == name);
}

/// Whether a list of sub-object entries contains one with the given name.
pub open spec fn has_sub_named(s: Seq<ObjVecView>, name: Seq<char>) -> bool {
    exists|i: int| 0 <= i < s.len() && s[i].obj.name == name
}

/// The index of the sub-object entry with the given name.
pub open spec fn index_of_sub(s: Seq<ObjVecView>, name: Seq<char>) -> int {
    choose|i: int| 0 <= i < s.len() && s[i].obj.name == name
}

/// Under per-tier name uniqueness, the index a name designates is the index
/// of any sub-object entry carrying that name.
pub proof fn lemma_index_of_named_sub(s: Seq<ObjVecView>, name: Seq<char>, k: int)
    requires
        unique_sub_names(s),
        0 <= k < s.len(),
        s[k].obj.name == name,
    ensures
        index_of_sub(s, name) == k,
{
    assert(has_sub_named(s, name));
    let i = index_of_sub(s, name);
    assert(0 <= i < s.len() && s[i].obj.name == name);
}

/// No two sub-object entries in the list share a name.
pub open spec fn unique_sub_names(s: Seq<ObjVecView>) -> bool {
    forall|i: int, j: int| 0 <= i < j < s.len() ==> s[i].obj.name != s[j].obj.name
}

/// Whether some entry in the list carries the given id.
pub open spec fn has_sub_id(s: Seq<ObjVecView>, id: nat) -> bool {
    exists|i: int| 0 <= i < s.len() && s[i].id == id
}

/// All ids in the list are below the bound.
pub open spec fn ids_below(s: Seq<ObjVecView>, bound: nat) -> bool {
    forall|i: int| 0 <= i < s.len() ==> s[i].id < bound
}

/// No two entries in the list share an id.
pub open spec fn distinct_ids(s: Seq<ObjVecView>) -> bool {
    forall|i: int, j: int| 0 <= i < j < s.len() ==> s[i].id != s[j].id
}

/// No id appears in both lists.
pub open spec fn no_common_ids(a: Seq<ObjVecView>, b: Seq<ObjVecView>) -> bool {
    forall|i: int, j: int| 0 <= i < a.len() && 0 <= j < b.len() ==> a[i].id != b[j].id
}

/// No two interface values in the list are the same.
pub open spec fn distinct_interfaces(s: Seq<InterfaceView>) -> bool {
    forall|i: int, j: int| 0 <= i < j < s.len() ==> s[i] != s[j]
}

impl ObjectView {
    /// The well-formedness invariant of an object's registries: service and
    /// sub-object names are unique within each tier; sub-object ids are
    /// unique across the whole object and below the id counter; no
    /// interface is implemented twice.
    pub open spec fn wf(self) -> bool {
        &&& unique_service_names(self.pubsrv)
        &&& unique_service_names(self.intsrv)
        &&& unique_service_names(self.privsrv)
        &&& unique_sub_names(self.pubsub)
        &&& unique_sub_names(self.intsub)
        &&& unique_sub_names(self.privsub)
        &&& distinct_ids(self.pubsub)
        &&& distinct_ids(self.intsub)
        &&& distinct_ids(self.privsub)
        &&& no_common_ids(self.pubsub, self.intsub)
        &&& no_common_ids(self.pubsub, self.privsub)
        &&& no_common_ids(self.intsub, self.privsub)
        &&& ids_below(self.pubsub, self.next_id)
        &&& ids_below(self.intsub, self.next_id)
        &&& ids_below(self.privsub, self.next_id)
        &&& distinct_interfaces(self.ints)
    }
}

/// Find the first service with the given name in a list.
pub(crate) fn find_service_index(v: &Vec<Service>, name: &String) -> (r: Option<usize>)
    ensures
        match r {
            Some(k) => {
                &&& k < v@.len()
                &&& service_views(v@)[k as int].name == name@
                &&& forall|t: int| 0 <= t < k ==> service_views(v@)[t].name != name@
            },
            None => !has_service_named(service_views(v@), name@),
        },
{
    let n = v.len();
    let mut j: usize = 0;
    while j < n
        invariant
            j <= n,
            n == v@.len(),
            forall|t: int| 0 <= t < j ==> #[trigger] service_views(v@)[t].name != name@,
        decreases n - j,
    {
        if v[j].name.eq(name) {
            proof {
                assert(service_views(v@)[j as int].name == name@);
            }
            return Some(j);
        }
        j = j + 1;
    }
    None
}

/// Find the first sub-object entry with the given name in a list.
pub(crate) fn find_sub_index(v: &Vec<ObjectVector>, name: &String) -> (r: Option<usize>)
    ensures
        match r {
            Some(k) => {
                &&& k < v@.len()
                &&& sub_views(v@)[k as int].obj.name == name@
                &&& forall|t: int| 0 <= t < k ==> sub_views(v@)[t].obj.name != name@
            },
            None => !has_sub_named(sub_views(v@), name@),
        },
{
    proof {
        lemma_sub_views(v@);
    }
    let n = v.len();
    let mut j: usize = 0;
    while j < n
        invariant
            j <= n,
            n == v@.len(),
            sub_views(v@).len() == n,
            forall|t: int| 0 <= t < v@.len() ==> #[trigger] sub_views(v@)[t] == v@[t]@,
            forall|t: int| 0 <= t < j ==> sub_views(v@)[t].obj.name != name@,
        decreases n - j,
    {
        if v[j].obj.name.eq(name) {
            proof {
                assert(sub_views(v@)[j as int].obj.name == name@);
            }
            return Some(j);
        }
        j = j + 1;
    }
    None
}

impl Object {
    /// Make a fresh object with the given name and empty registries.
    pub fn new(name: String) -> (o: Self)
        ensures
            o@ == (ObjectView {
                name: name@,
                pubsrv: Seq::empty(),
                intsrv: Seq::empty(),
                privsrv: Seq::empty(),
                ints: Seq::empty(),
                pubsub: Seq::empty(),
                intsub: Seq::empty(),
                privsub: Seq::empty(),
                next_id: 0,
            }),
            o@.wf(),
    {
        let o = Object {
            name,
            pubsrv: Vec::new(),
            intsrv: Vec::new(),
            privsrv: Vec::new(),
            ints: Vec::new(),
            pubsub: Vec::new(),
            intsub: Vec::new(),
            privsub: Vec::new(),
            next_id: 0,
        };
        proof {
            assert(o@.pubsrv =~= Seq::<ServiceView>::empty());
            assert(o@.intsrv =~= Seq::<ServiceView>::empty());
            assert(o@.privsrv =~= Seq::<ServiceView>::empty());
            assert(o@.ints =~= Seq::<InterfaceView>::empty());
            assert(o@ =~= (ObjectView {
                name: o.name@,
                pubsrv: Seq::empty(),
                intsrv: Seq::empty(),
                privsrv: Seq::empty(),
                ints: Seq::empty(),
                pubsub: Seq::empty(),
                intsub: Seq::empty(),
                privsub: Seq::empty(),
                next_id: 0,
            }));
        }
        o
    }

    /// The name of this object.
    pub fn name(&self) -> (r: &str)
        ensures
            r@ == self@.name,
    {
        self.name.as_str()
    }

    /// All public services at the current network level of the object.
    pub fn public_services(&self) -> (r: &Vec<Service>)
        ensures
            service_views(r@) == self@.pubsrv,
    {
        &self.pubsrv
    }

    /// All internal services at the current network level of the object.
    pub fn internal_services(&self) -> (r: &Vec<Service>)
        ensures
            service_views(r@) == self@.intsrv,
    {
        &self.intsrv
    }

    /// All private services at the current network level of the object.
    pub fn private_services(&self) -> (r: &Vec<Service>)
        ensures
            service_views(r@) == self@.privsrv,
    {
        &self.privsrv
    }

    /// All interfaces implemented by this object.
    pub fn interfaces(&self) -> (r: &Vec<Interface>)
        ensures
            interface_views(r@) == self@.ints,
    {
        &self.ints
    }

    /// All public sub-objects of this object.
    pub fn public_sub_objects(&self) -> (r: &Vec<ObjectVector>)
        ensures
            sub_views(r@) == self@.pubsub,
    {
        &self.pubsub
    }

    /// All internal sub-objects of this object.
    pub fn internal_sub_objects(&self) -> (r: &Vec<ObjectVector>)
        ensures
            sub_views(r@) == self@.intsub,
    {
        &self.intsub
    }

    /// All private sub-objects of this object.
    pub fn private_sub_objects(&self) -> (r: &Vec<ObjectVector>)
        ensures
            sub_views(r@) == self@.privsub,
    {
        &self.privsub
    }

    /// Whether this object has a service with this name, at any tier.
    pub fn has_service_with_name(&self, name: &String) -> (r: bool)
        ensures
            r == (has_service_named(self@.pubsrv, name@) || has_service_named(
                self@.intsrv,
                name@,
            ) || has_service_named(self@.privsrv, name@)),
    {
        let in_pub = find_service_index(&self.pubsrv, name);
        let in_int = find_service_index(&self.intsrv, name);
        let in_priv = find_service_index(&self.privsrv, name);
        proof {
            if in_pub is Some {
                assert(has_service_named(self@.pubsrv, name@));
            }
            if in_int is Some {
                assert(has_service_named(self@.intsrv, name@));
            }
            if in_priv is Some {
                assert(has_service_named(self@.privsrv, name@));
            }
        }
        in_pub.is_some() || in_int.is_some() || in_priv.is_some()
    }

    /// The service with the given name, if this object implements one,
    /// searching the public, then internal, then private tier.
    pub fn service_by_name(&self, name: &String) -> (r: Option<&Service>)
        requires
            self@.wf(),
        ensures
            match r {
                Some(s) => lookup_service(self@, name@) == Some(s@),
                None => lookup_service(self@, name@) is None,
            },
    {
        if let Some(k) = find_service_index(&self.pubsrv, name) {
            proof {
                assert(has_service_named(self@.pubsrv, name@));
                lemma_index_of_named_service(self@.pubsrv, name@, k as int);
            }
            return Some(&self.pubsrv[k]);
        }
        if let Some(k) = find_service_index(&self.intsrv, name) {
            proof {
                assert(has_service_named(self@.intsrv, name@));
                lemma_index_of_named_service(self@.intsrv, name@, k as int);
            }
            return Some(&self.intsrv[k]);
        }
        if let Some(k) = find_service_index(&self.privsrv, name) {
            proof {
                assert(has_service_named(self@.privsrv, name@));
                lemma_index_of_named_service(self@.privsrv, name@, k as int);
            }
            return Some(&self.privsrv[k]);
        }
        None
    }

    /// A deep copy of this object, sub-objects included; shared interfaces
    /// stay shared.
    pub fn duplicate(&self) -> (r: Object)
        ensures
            r@ == self@,
        decreases *self, 1int,
    {
        let r = Object {
            name: self.name.clone(),
            pubsrv: dup_services(&self.pubsrv),
            intsrv: dup_services(&self.intsrv),
            privsrv: dup_services(&self.privsrv),
            ints: dup_interfaces(&self.ints),
            pubsub: dup_subs(&self.pubsub),
            intsub: dup_subs(&self.intsub),
            privsub: dup_subs(&self.privsub),
            next_id: self.next_id,
        };
        proof {
            assert(r@ =~= self@);
        }
        r
    }
}

/// A copy of an interface list, value for value; the shared dependency and
/// package references are shared, not copied.
pub(crate) fn dup_interfaces(v: &Vec<Interface>) -> (r: Vec<Interface>)
    ensures
        interface_views(r@) == interface_views(v@),
        r@.len() == v@.len(),
{
    let n = v.len();
    let mut out: Vec<Interface> = Vec::new();
    let mut j: usize = 0;
    while j < n
        invariant
            j <= n,
            n == v@.len(),
            out@.len() == j,
            forall|t: int| 0 <= t < j ==> #[trigger] interface_view(out@[t]) == interface_view(
                v@[t],
            ),
        decreases n - j,
    {
        out.push(v[j].duplicate());
        j = j + 1;
    }
    proof {
        assert(interface_views(out@) =~= interface_views(v@));
    }
    out
}

/// A deep copy of a sub-object list, entry for entry.
pub(crate) fn dup_subs(v: &Vec<ObjectVector>) -> (r: Vec<ObjectVector>)
    ensures
        sub_views(r@) == sub_views(v@),
        r@.len() == v@.len(),
    decreases v, 0int,
{
    proof {
        lemma_sub_views(v@);
    }
    let n = v.len();
    let mut out: Vec<ObjectVector> = Vec::new();
    let mut j: usize = 0;
    while j < n
        invariant
            j <= n,
            n == v@.len(),
            out@.len() == j,
            forall|t: int| 0 <= t < v@.len() ==> #[trigger] sub_views(v@)[t] == v@[t]@,
            forall|t: int| 0 <= t < j ==> #[trigger] out@[t]@ == v@[t]@,
        decreases n - j,
    {
        let entry = &v[j];
        let copy = ObjectVector { obj: entry.obj.duplicate(), id: entry.id };
        out.push(copy);
        j = j + 1;
    }
    proof {
        lemma_sub_views(out@);
        assert(sub_views(out@) =~= sub_views(v@));
    }
    out
}

/// The service a name designates on an object, searching the public, then
/// internal, then private tier.
pub open spec fn lookup_service(o: ObjectView, name: Seq<char>) -> Option<ServiceView> {
    if has_service_named(o.pubsrv, name) {
        Some(o.pubsrv[index_of_service(o.pubsrv, name)])
    } else if has_service_named(o.intsrv, name) {
        Some(o.intsrv[index_of_service(o.intsrv, name)])
    } else if has_service_named(o.privsrv, name) {
        Some(o.privsrv[index_of_service(o.privsrv, name)])
    } else {
        None
    }
}

impl ObjectVector {
    /// Pair an object with its id.
    pub fn new(obj: Object, id: u32) -> (r: Self)
        ensures
            r@ == (ObjVecView { obj: obj@, id: id as nat }),
    {
        ObjectVector { obj, id }
    }

    /// The id of the object at this network level.
    pub fn id(&self) -> (r: u32)
        ensures
            r as nat == self@.id,
    {
        self.id
    }

    /// Split into the object and its id.
    pub fn split_vector(self) -> (r: (Object, u32))
        ensures
            r.0@ == self@.obj,
            r.1 as nat == self@.id,
    {
        (self.obj, self.id)
    }
}

} // verus!
