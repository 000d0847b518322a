//! Transactions over one object: an ordered batch of structural commands
//! that either takes effect as a whole or leaves the object untouched.
//! Every command is validated against a shadow state that folds in the
//! earlier commands of the same batch, so a batch may add a service and then
//! implement an interface that requires it, in one atomic step.

use vstd::prelude::*;
use crate::service::Service;
use crate::service::ServiceView;
use crate::service::has_service_named;
use crate::service::index_of_service;
use crate::interface::Interface;
use crate::interface::InterfaceView;
use crate::interface::dep_includes;
use crate::object::Object;
use crate::object::ObjectView;
use crate::object::ObjVecView;
use crate::object::has_sub_named;
use crate::object::index_of_sub;
use crate::object::ObjectVector;
use crate::object::service_views;
use crate::object::interface_views;
use crate::object::sub_views;
use crate::object::unique_service_names;
use crate::object::unique_sub_names;
use crate::object::distinct_ids;
use crate::object::no_common_ids;
use crate::object::distinct_interfaces;
use crate::object::ids_below;
use crate::object::has_sub_id;
use crate::object::find_service_index;
use crate::object::find_sub_index;
use crate::object::lemma_index_of_named_service;
use crate::object::lemma_index_of_named_sub;
use crate::object::lemma_sub_views;
use crate::interface::dep_views;
use crate::interface::lemma_dep_views;
use crate::version::compatible;
use std::rc::Rc;

verus! {

/// Visibility of objects and services.
#[derive(Clone, Copy, PartialEq, Eq, Structural, Debug)]
pub enum Visibility {
    /// Visible to everything from everywhere.
    Public,
    /// Visible only to services and sub-objects and their services.
    Internal,
    /// Visible only for the parent object and services at the current
    /// hierarchy level.
    Private,
}

/// Why a transaction failed to apply. On any of these the target object is
/// left exactly as it was.
#[derive(Clone, Copy, PartialEq, Eq, Structural, Debug)]
pub enum TransactionError {
    /// An add command collided with a name already present in the target
    /// tier, or a visibility change would create such a collision.
    DuplicateName,
    /// A remove or visibility change referenced an element that is not
    /// there, or an interface was unimplemented that was never implemented.
    NotFound,
    /// A visibility change whose source and destination tiers are the same.
    AlreadyAtVisibility,
    /// An interface was implemented before an interface it depends on.
    UnmetDependency,
    /// An interface was implemented without all of its mandated services
    /// present as public services of the object.
    MissingService,
    /// An interface with the same package and name but an incompatible
    /// version is already implemented.
    IncompatibleVersion,
    /// An interface was unimplemented while another implemented interface
    /// still depends on it.
    DependentInterfaceActive,
}

/// One pending structural change, recorded by a transaction. Commands that
/// move an element between tiers carry the source tier if the caller stated
/// one; without it the engine searches the public, then internal, then
/// private tier.
pub enum Command {
    /// Add a service at a tier.
    AddSrv(Visibility, Service),
    /// Remove the service with this name from a tier.
    RemSrv(Visibility, Service),
    /// Move the service with this name to a new tier, from the stated tier
    /// if one is given.
    ChgSrvVis(Service, Visibility, Option<Visibility>),
    /// Add a sub-object at a tier.
    NewSubObj(Visibility, Object),
    /// Remove the sub-object with this name from a tier.
    RemSubObj(Visibility, Object),
    /// Move the sub-object with this name to a new tier, from the stated
    /// tier if one is given.
    ChgSubObjVis(Object, Visibility, Option<Visibility>),
    /// Mark the object as an implementer of this interface.
    ImplInt(Interface),
    /// Remove this interface from the object's implemented set.
    UnimplInt(Interface),
}

/// Mathematical value of a command.
#[verifier::ext_equal]
pub enum CommandView {
    AddSrv(Visibility, ServiceView),
    RemSrv(Visibility, ServiceView),
    ChgSrvVis(ServiceView, Visibility, Option<Visibility>),
    NewSubObj(Visibility, ObjectView),
    RemSubObj(Visibility, ObjectView),
    ChgSubObjVis(ObjectView, Visibility, Option<Visibility>),
    ImplInt(InterfaceView),
    UnimplInt(InterfaceView),
}

impl View for Command {
    type V = CommandView;

    open spec fn view(&self) -> CommandView {
        match self {
            Command::AddSrv(v, s) => CommandView::AddSrv(*v, s@),
            Command::RemSrv(v, s) => CommandView::RemSrv(*v, s@),
            Command::ChgSrvVis(s, to, from) => CommandView::ChgSrvVis(s@, *to, *from),
            Command::NewSubObj(v, o) => CommandView::NewSubObj(*v, o@),
            Command::RemSubObj(v, o) => CommandView::RemSubObj(*v, o@),
            Command::ChgSubObjVis(o, to, from) => CommandView::ChgSubObjVis(o@, *to, *from),
            Command::ImplInt(i) => CommandView::ImplInt(i@),
            Command::UnimplInt(i) => CommandView::UnimplInt(i@),
        }
    }
}

impl ObjectView {
    /// The service list of one visibility tier.
    pub open spec fn services_at(self, v: Visibility) -> Seq<ServiceView> {
        match v {
            Visibility::Public => self.pubsrv,
            Visibility::Internal => self.intsrv,
            Visibility::Private => self.privsrv,
        }
    }

    /// This object with one tier's service list replaced.
    pub open spec fn with_services_at(self, v: Visibility, s: Seq<ServiceView>) -> ObjectView {
        match v {
            Visibility::Public => ObjectView { pubsrv: s, ..self },
            Visibility::Internal => ObjectView { intsrv: s, ..self },
            Visibility::Private => ObjectView { privsrv: s, ..self },
        }
    }

    /// The sub-object list of one visibility tier.
    pub open spec fn subs_at(self, v: Visibility) -> Seq<ObjVecView> {
        match v {
            Visibility::Public => self.pubsub,
            Visibility::Internal => self.intsub,
            Visibility::Private => self.privsub,
        }
    }

    /// This object with one tier's sub-object list replaced.
    pub open spec fn with_subs_at(self, v: Visibility, s: Seq<ObjVecView>) -> ObjectView {
        match v {
            Visibility::Public => ObjectView { pubsub: s, ..self },
            Visibility::Internal => ObjectView { intsub: s, ..self },
            Visibility::Private => ObjectView { privsub: s, ..self },
        }
    }
}

/// The tier a service will be moved from: the stated one if the caller gave
/// one and the name is there, else the first of public, internal, private
/// that holds the name; `None` when the name is nowhere to be found.
pub open spec fn service_source_tier(
    o: ObjectView,
    from: Option<Visibility>,
    name: Seq<char>,
) -> Option<Visibility> {
    match from {
        Some(f) => if has_service_named(o.services_at(f), name) {
            Some(f)
        } else {
            None
        },
        None => if has_service_named(o.pubsrv, name) {
            Some(Visibility::Public)
        } else if has_service_named(o.intsrv, name) {
            Some(Visibility::Internal)
        } else if has_service_named(o.privsrv, name) {
            Some(Visibility::Private)
        } else {
            None
        },
    }
}

/// The tier a sub-object will be moved from, under the same search rule as
/// for services.
pub open spec fn sub_source_tier(
    o: ObjectView,
    from: Option<Visibility>,
    name: Seq<char>,
) -> Option<Visibility> {
    match from {
        Some(f) => if has_sub_named(o.subs_at(f), name) {
            Some(f)
        } else {
            None
        },
        None => if has_sub_named(o.pubsub, name) {
            Some(Visibility::Public)
        } else if has_sub_named(o.intsub, name) {
            Some(Visibility::Internal)
        } else if has_sub_named(o.privsub, name) {
            Some(Visibility::Private)
        } else {
            None
        },
    }
}

/// Whether some implemented interface satisfies the dependency `d`: same
/// package and name, and a version compatible with the required one.
pub open spec fn satisfies_dependency(ints: Seq<InterfaceView>, d: InterfaceView) -> bool {
    exists|j: int|
        0 <= j < ints.len() && ints[j].pack == d.pack && ints[j].name == d.name && compatible(
            ints[j].ver,
            d.ver,
        )
}

/// Whether every dependency in `deps` is satisfied by the implemented set.
pub open spec fn all_deps_met(ints: Seq<InterfaceView>, deps: Seq<InterfaceView>) -> bool {
    forall|k: int| 0 <= k < deps.len() ==> satisfies_dependency(ints, #[trigger] deps[k])
}

/// Whether every mandated service is present, by name, among the public
/// services.
pub open spec fn all_services_present(
    pubsrv: Seq<ServiceView>,
    serv: Seq<ServiceView>,
) -> bool {
    forall|k: int| 0 <= k < serv.len() ==> has_service_named(pubsrv, (#[trigger] serv[k]).name)
}

/// Whether an implemented interface shares `i`'s package and name but has a
/// version not compatible with `i`'s.
pub open spec fn version_conflict(ints: Seq<InterfaceView>, i: InterfaceView) -> bool {
    exists|j: int|
        0 <= j < ints.len() && ints[j].pack == i.pack && ints[j].name == i.name && !compatible(
            ints[j].ver,
            i.ver,
        )
}

/// Whether some implemented interface lists `i` in its dependency set.
pub open spec fn some_dependent(ints: Seq<InterfaceView>, i: InterfaceView) -> bool {
    exists|j: int| 0 <= j < ints.len() && dep_includes((#[trigger] ints[j]).dep, i)
}

/// The index of the interface equal to `i` in the list.
pub open spec fn index_of_interface(ints: Seq<InterfaceView>, i: InterfaceView) -> int {
    choose|k: int| 0 <= k < ints.len() && ints[k] == i
}

/// What one command does to an object's state: the new state, or the error
/// that rejects the whole batch. This is the reference semantics every
/// applied transaction is proved against.
pub open spec fn step(s: ObjectView, c: CommandView) -> Result<ObjectView, TransactionError> {
    match c {
        CommandView::AddSrv(v, srv) => {
            if has_service_named(s.services_at(v), srv.name) {
                Err(TransactionError::DuplicateName)
            } else {
                Ok(s.with_services_at(v, s.services_at(v).push(srv)))
            }
        },
        CommandView::RemSrv(v, srv) => {
            if !has_service_named(s.services_at(v), srv.name) {
                Err(TransactionError::NotFound)
            } else {
                Ok(
                    s.with_services_at(
                        v,
                        s.services_at(v).remove(index_of_service(s.services_at(v), srv.name)),
                    ),
                )
            }
        },
        CommandView::ChgSrvVis(srv, to, from) => {
            match service_source_tier(s, from, srv.name) {
                None => Err(TransactionError::NotFound),
                Some(f) => {
                    if f == to {
                        Err(TransactionError::AlreadyAtVisibility)
                    } else if has_service_named(s.services_at(to), srv.name) {
                        Err(TransactionError::DuplicateName)
                    } else {
                        let k = index_of_service(s.services_at(f), srv.name);
                        let moved = s.services_at(f)[k];
                        let s1 = s.with_services_at(f, s.services_at(f).remove(k));
                        Ok(s1.with_services_at(to, s1.services_at(to).push(moved)))
                    }
                },
            }
        },
        CommandView::NewSubObj(v, o) => {
            if has_sub_named(s.subs_at(v), o.name) {
                Err(TransactionError::DuplicateName)
            } else {
                let entry = ObjVecView { obj: o, id: s.next_id };
                let s1 = s.with_subs_at(v, s.subs_at(v).push(entry));
                Ok(ObjectView { next_id: s.next_id + 1, ..s1 })
            }
        },
        CommandView::RemSubObj(v, o) => {
            if !has_sub_named(s.subs_at(v), o.name) {
                Err(TransactionError::NotFound)
            } else {
                Ok(s.with_subs_at(v, s.subs_at(v).remove(index_of_sub(s.subs_at(v), o.name))))
            }
        },
        CommandView::ChgSubObjVis(o, to, from) => {
            match sub_source_tier(s, from, o.name) {
                None => Err(TransactionError::NotFound),
                Some(f) => {
                    if f == to {
                        Err(TransactionError::AlreadyAtVisibility)
                    } else if has_sub_named(s.subs_at(to), o.name) {
                        Err(TransactionError::DuplicateName)
                    } else {
                        let k = index_of_sub(s.subs_at(f), o.name);
                        let moved = s.subs_at(f)[k];
                        let s1 = s.with_subs_at(f, s.subs_at(f).remove(k));
                        Ok(s1.with_subs_at(to, s1.subs_at(to).push(moved)))
                    }
                },
            }
        },
        CommandView::ImplInt(i) => {
            if !all_deps_met(s.ints, i.dep) {
                Err(TransactionError::UnmetDependency)
            } else if !all_services_present(s.pubsrv, i.serv) {
                Err(TransactionError::MissingService)
            } else if version_conflict(s.ints, i) {
                Err(TransactionError::IncompatibleVersion)
            } else if dep_includes(s.ints, i) {
                Ok(s)
            } else {
                Ok(ObjectView { ints: s.ints.push(i), ..s })
            }
        },
        CommandView::UnimplInt(i) => {
            if !dep_includes(s.ints, i) {
                Err(TransactionError::NotFound)
            } else if some_dependent(s.ints, i) {
                Err(TransactionError::DependentInterfaceActive)
            } else {
                Ok(ObjectView { ints: s.ints.remove(index_of_interface(s.ints, i)), ..s })
            }
        },
    }
}

/// What a whole batch does: commands are folded in order over the state and
/// the first failing command's error rejects the batch.
pub open spec fn run(s: ObjectView, cmds: Seq<CommandView>) -> Result<
    ObjectView,
    TransactionError,
>
    decreases cmds.len(),
{
    if cmds.len() == 0 {
        Ok(s)
    } else {
        match step(s, cmds[0]) {
            Ok(s2) => run(s2, cmds.skip(1)),
            Err(e) => Err(e),
        }
    }
}

} // verus!

verus! {

/// Adding a fresh name keeps a tier's service names unique.
pub proof fn lemma_unique_services_push(s: Seq<ServiceView>, x: ServiceView)
    requires
        unique_service_names(s),
        !has_service_named(s, x.name),
    ensures
        unique_service_names(s.push(x)),
{
    assert forall|i: int, j: int| 0 <= i < j < s.push(x).len() implies s.push(x)[i].name != s.push(
        x,
    )[j].name by {
        if j == s.len() {
            assert(s.push(x)[i] == s[i]);
        }
    }
}

/// Removing an entry keeps a tier's service names unique, and no new name
/// appears.
pub proof fn lemma_unique_services_remove(s: Seq<ServiceView>, k: int)
    requires
        unique_service_names(s),
        0 <= k < s.len(),
    ensures
        unique_service_names(s.remove(k)),
        forall|n: Seq<char>| has_service_named(s.remove(k), n) ==> has_service_named(s, n),
{
    s.remove_ensures(k);
    assert forall|i: int, j: int|
        0 <= i < j < s.remove(k).len() implies s.remove(k)[i].name != s.remove(k)[j].name by {
        assert(s.remove(k)[i] == (if i < k {
            s[i]
        } else {
            s[i + 1]
        }));
        assert(s.remove(k)[j] == (if j < k {
            s[j]
        } else {
            s[j + 1]
        }));
    }
    assert forall|n: Seq<char>| has_service_named(s.remove(k), n) implies has_service_named(
        s,
        n,
    ) by {
        let i = choose|i: int| 0 <= i < s.remove(k).len() && s.remove(k)[i].name == n;
        assert(s.remove(k)[i] == (if i < k {
            s[i]
        } else {
            s[i + 1]
        }));
    }
}

/// Adding a fresh name keeps a tier's sub-object names unique.
pub proof fn lemma_unique_subs_push(s: Seq<ObjVecView>, x: ObjVecView)
    requires
        unique_sub_names(s),
        !has_sub_named(s, x.obj.name),
    ensures
        unique_sub_names(s.push(x)),
{
    assert forall|i: int, j: int|
        0 <= i < j < s.push(x).len() implies s.push(x)[i].obj.name != s.push(x)[j].obj.name by {
        if j == s.len() {
            assert(s.push(x)[i] == s[i]);
        }
    }
}

/// Removing an entry keeps sub-object names unique and ids distinct, loses
/// no id bound, and every remaining entry was already there.
pub proof fn lemma_subs_remove(s: Seq<ObjVecView>, k: int)
    requires
        0 <= k < s.len(),
    ensures
        unique_sub_names(s) ==> unique_sub_names(s.remove(k)),
        distinct_ids(s) ==> distinct_ids(s.remove(k)),
        forall|i: int|
            0 <= i < s.remove(k).len() ==> #[trigger] s.remove(k)[i] == (if i < k {
                s[i]
            } else {
                s[i + 1]
            }),
{
    s.remove_ensures(k);
    assert forall|i: int|
        0 <= i < s.remove(k).len() implies #[trigger] s.remove(k)[i] == (if i < k {
        s[i]
    } else {
        s[i + 1]
    }) by {}
}

/// Under distinctness, the index an interface value designates is the index
/// of any equal entry.
pub proof fn lemma_index_of_interface(s: Seq<InterfaceView>, v: InterfaceView, k: int)
    requires
        distinct_interfaces(s),
        0 <= k < s.len(),
        s[k] == v,
    ensures
        index_of_interface(s, v) == k,
{
    assert(dep_includes(s, v));
    let i = index_of_interface(s, v);
    assert(0 <= i < s.len() && s[i] == v);
}

/// Add a service to one tier's list, refusing a name collision.
fn vec_add_service(vec: &mut Vec<Service>, srv: Service) -> (r: Result<(), TransactionError>)
    ensures
        match r {
            Ok(()) => {
                &&& !has_service_named(service_views(old(vec)@), srv@.name)
                &&& service_views(final(vec)@) == service_views(old(vec)@).push(srv@)
            },
            Err(e) => {
                &&& e == TransactionError::DuplicateName
                &&& has_service_named(service_views(old(vec)@), srv@.name)
                &&& *final(vec) == *old(vec)
            },
        },
{
    match find_service_index(vec, &srv.name) {
        Some(k) => {
            proof {
                assert(service_views(vec@)[k as int].name == srv@.name);
                assert(has_service_named(service_views(vec@), srv@.name));
            }
            Err(TransactionError::DuplicateName)
        },
        None => {
            let ghost pre = vec@;
            vec.push(srv);
            proof {
                assert(service_views(vec@) =~= service_views(pre).push(srv@));
            }
            Ok(())
        },
    }
}

/// Remove the service carrying a name from one tier's list.
fn vec_remove_service(vec: &mut Vec<Service>, name: &String) -> (r: Result<
    Service,
    TransactionError,
>)
    requires
        unique_service_names(service_views(old(vec)@)),
    ensures
        match r {
            Ok(srv) => {
                &&& has_service_named(service_views(old(vec)@), name@)
                &&& srv@ == service_views(old(vec)@)[index_of_service(
                    service_views(old(vec)@),
                    name@,
                )]
                &&& service_views(final(vec)@) == service_views(old(vec)@).remove(
                    index_of_service(service_views(old(vec)@), name@),
                )
            },
            Err(e) => {
                &&& e == TransactionError::NotFound
                &&& !has_service_named(service_views(old(vec)@), name@)
                &&& *final(vec) == *old(vec)
            },
        },
{
    match find_service_index(vec, name) {
        None => Err(TransactionError::NotFound),
        Some(k) => {
            let ghost pre = vec@;
            proof {
                assert(service_views(pre)[k as int].name == name@);
                assert(has_service_named(service_views(pre), name@));
                lemma_index_of_named_service(service_views(pre), name@, k as int);
                service_views(pre).remove_ensures(k as int);
            }
            let srv = vec.remove(k);
            proof {
                assert(service_views(vec@) =~= service_views(pre).remove(k as int));
            }
            Ok(srv)
        },
    }
}

/// Add a sub-object entry to one tier's list, refusing a name collision.
fn vec_add_sub(vec: &mut Vec<ObjectVector>, entry: ObjectVector) -> (r: Result<
    (),
    TransactionError,
>)
    ensures
        match r {
            Ok(()) => {
                &&& !has_sub_named(sub_views(old(vec)@), entry@.obj.name)
                &&& sub_views(final(vec)@) == sub_views(old(vec)@).push(entry@)
            },
            Err(e) => {
                &&& e == TransactionError::DuplicateName
                &&& has_sub_named(sub_views(old(vec)@), entry@.obj.name)
                &&& *final(vec) == *old(vec)
            },
        },
{
    match find_sub_index(vec, &entry.obj.name) {
        Some(k) => {
            proof {
                lemma_sub_views(vec@);
                assert(sub_views(vec@)[k as int].obj.name == entry@.obj.name);
                assert(has_sub_named(sub_views(vec@), entry@.obj.name));
            }
            Err(TransactionError::DuplicateName)
        },
        None => {
            let ghost pre = vec@;
            vec.push(entry);
            proof {
                assert(vec@.drop_last() =~= pre);
                assert(sub_views(vec@) == sub_views(pre).push(vec@.last()@));
            }
            Ok(())
        },
    }
}

/// Remove the sub-object entry carrying a name from one tier's list.
fn vec_remove_sub(vec: &mut Vec<ObjectVector>, name: &String) -> (r: Result<
    ObjectVector,
    TransactionError,
>)
    requires
        unique_sub_names(sub_views(old(vec)@)),
    ensures
        match r {
            Ok(entry) => {
                &&& has_sub_named(sub_views(old(vec)@), name@)
                &&& entry@ == sub_views(old(vec)@)[index_of_sub(sub_views(old(vec)@), name@)]
                &&& sub_views(final(vec)@) == sub_views(old(vec)@).remove(
                    index_of_sub(sub_views(old(vec)@), name@),
                )
            },
            Err(e) => {
                &&& e == TransactionError::NotFound
                &&& !has_sub_named(sub_views(old(vec)@), name@)
                &&& *final(vec) == *old(vec)
            },
        },
{
    match find_sub_index(vec, name) {
        None => Err(TransactionError::NotFound),
        Some(k) => {
            let ghost pre = vec@;
            proof {
                lemma_sub_views(pre);
                assert(sub_views(pre)[k as int].obj.name == name@);
                assert(has_sub_named(sub_views(pre), name@));
                lemma_index_of_named_sub(sub_views(pre), name@, k as int);
                sub_views(pre).remove_ensures(k as int);
            }
            let entry = vec.remove(k);
            proof {
                lemma_sub_views(vec@);
                assert(sub_views(vec@) =~= sub_views(pre).remove(k as int));
                assert(entry@ == sub_views(pre)[k as int]);
            }
            Ok(entry)
        },
    }
}

/// Find the first entry equal to the given interface by exact identity.
fn find_interface_index(v: &Vec<Interface>, i: &Interface) -> (r: Option<usize>)
    ensures
        match r {
            Some(k) => {
                &&& k < v@.len()
                &&& interface_views(v@)[k as int] == i@
                &&& forall|t: int| 0 <= t < k ==> interface_views(v@)[t] != i@
            },
            None => !dep_includes(interface_views(v@), i@),
        },
{
    let n = v.len();
    let mut j: usize = 0;
    while j < n
        invariant
            j <= n,
            n == v@.len(),
            forall|t: int| 0 <= t < j ==> #[trigger] interface_views(v@)[t] != i@,
        decreases n - j,
    {
        if v[j].eq_interface(i) {
            return Some(j);
        }
        j = j + 1;
    }
    None
}

/// Whether some implemented interface satisfies the dependency `d`.
fn satisfies_dep(ints: &Vec<Interface>, d: &Interface) -> (r: bool)
    ensures
        r == satisfies_dependency(interface_views(ints@), d@),
{
    let n = ints.len();
    let mut j: usize = 0;
    while j < n
        invariant
            j <= n,
            n == ints@.len(),
            forall|t: int|
                0 <= t < j ==> !((#[trigger] interface_views(ints@)[t]).pack == d@.pack
                    && interface_views(ints@)[t].name == d@.name && compatible(
                    interface_views(ints@)[t].ver,
                    d@.ver,
                )),
        decreases n - j,
    {
        let c = &ints[j];
        if c.pack.path.eq_path(&d.pack.path) && c.name.eq(&d.name) && c.ver.is_compatible(&d.ver) {
            proof {
                assert(interface_views(ints@)[j as int].pack == d@.pack);
                assert(interface_views(ints@)[j as int].name == d@.name);
                assert(compatible(interface_views(ints@)[j as int].ver, d@.ver));
            }
            return true;
        }
        j = j + 1;
    }
    false
}

/// Whether every dependency in the list is satisfied by the implemented set.
fn deps_met_exec(ints: &Vec<Interface>, deps: &Vec<Rc<Interface>>) -> (r: bool)
    ensures
        r == all_deps_met(interface_views(ints@), dep_views(deps@)),
{
    proof {
        lemma_dep_views(deps@);
    }
    let n = deps.len();
    let mut j: usize = 0;
    while j < n
        invariant
            j <= n,
            n == deps@.len(),
            dep_views(deps@).len() == n,
            forall|t: int| 0 <= t < deps@.len() ==> #[trigger] dep_views(deps@)[t] == (*deps@[t])@,
            forall|t: int|
                0 <= t < j ==> satisfies_dependency(
                    interface_views(ints@),
                    #[trigger] dep_views(deps@)[t],
                ),
        decreases n - j,
    {
        let d: &Interface = &*deps[j];
        if !satisfies_dep(ints, d) {
            proof {
                assert(!satisfies_dependency(interface_views(ints@), dep_views(deps@)[j as int]));
            }
            return false;
        }
        j = j + 1;
    }
    true
}

/// Whether every mandated service is present, by name, among the public
/// services.
fn services_present_exec(pubsrv: &Vec<Service>, serv: &Vec<Service>) -> (r: bool)
    ensures
        r == all_services_present(service_views(pubsrv@), service_views(serv@)),
{
    let n = serv.len();
    let mut j: usize = 0;
    while j < n
        invariant
            j <= n,
            n == serv@.len(),
            forall|t: int|
                0 <= t < j ==> has_service_named(
                    service_views(pubsrv@),
                    (#[trigger] service_views(serv@)[t]).name,
                ),
        decreases n - j,
    {
        match find_service_index(pubsrv, &serv[j].name) {
            None => {
                proof {
                    assert(service_views(serv@)[j as int].name == serv@[j as int]@.name);
                }
                return false;
            },
            Some(k) => {
                proof {
                    assert(service_views(pubsrv@)[k as int].name == serv@[j as int]@.name);
                    assert(has_service_named(
                        service_views(pubsrv@),
                        service_views(serv@)[j as int].name,
                    ));
                }
            },
        }
        j = j + 1;
    }
    true
}

/// Whether an implemented interface shares the package and name but has an
/// incompatible version.
fn conflict_exec(ints: &Vec<Interface>, i: &Interface) -> (r: bool)
    ensures
        r == version_conflict(interface_views(ints@), i@),
{
    let n = ints.len();
    let mut j: usize = 0;
    while j < n
        invariant
            j <= n,
            n == ints@.len(),
            forall|t: int|
                0 <= t < j ==> !((#[trigger] interface_views(ints@)[t]).pack == i@.pack
                    && interface_views(ints@)[t].name == i@.name && !compatible(
                    interface_views(ints@)[t].ver,
                    i@.ver,
                )),
        decreases n - j,
    {
        let c = &ints[j];
        if c.pack.path.eq_path(&i.pack.path) && c.name.eq(&i.name) && !c.ver.is_compatible(&i.ver) {
            proof {
                assert(interface_views(ints@)[j as int].pack == i@.pack);
                assert(interface_views(ints@)[j as int].name == i@.name);
                assert(!compatible(interface_views(ints@)[j as int].ver, i@.ver));
            }
            return true;
        }
        j = j + 1;
    }
    false
}

/// Whether some implemented interface lists `i` in its dependency set.
fn dependent_exec(ints: &Vec<Interface>, i: &Interface) -> (r: bool)
    ensures
        r == some_dependent(interface_views(ints@), i@),
{
    let n = ints.len();
    let mut j: usize = 0;
    while j < n
        invariant
            j <= n,
            n == ints@.len(),
            forall|t: int|
                0 <= t < j ==> !dep_includes((#[trigger] interface_views(ints@)[t]).dep, i@),
        decreases n - j,
    {
        if ints[j].dep.includes(i) {
            proof {
                assert(dep_includes(interface_views(ints@)[j as int].dep, i@));
            }
            return true;
        }
        j = j + 1;
    }
    false
}

} // verus!

verus! {

/// Pushing a service with a fresh name onto a tier keeps the object
/// well-formed.
proof fn lemma_wf_after_service_push(o: ObjectView, v: Visibility, x: ServiceView)
    requires
        o.wf(),
        !has_service_named(o.services_at(v), x.name),
    ensures
        o.with_services_at(v, o.services_at(v).push(x)).wf(),
{
    lemma_unique_services_push(o.services_at(v), x);
}

/// Removing a service from a tier keeps the object well-formed.
proof fn lemma_wf_after_service_remove(o: ObjectView, v: Visibility, k: int)
    requires
        o.wf(),
        0 <= k < o.services_at(v).len(),
    ensures
        o.with_services_at(v, o.services_at(v).remove(k)).wf(),
{
    lemma_unique_services_remove(o.services_at(v), k);
}

/// No entry of a tier carries the id of a removed entry, once the entry is
/// removed, when ids are distinct.
proof fn lemma_sub_id_gone(s: Seq<ObjVecView>, k: int)
    requires
        distinct_ids(s),
        0 <= k < s.len(),
    ensures
        !has_sub_id(s.remove(k), s[k].id),
{
    s.remove_ensures(k);
    assert forall|i: int| 0 <= i < s.remove(k).len() implies s.remove(k)[i].id != s[k].id by {
        assert(s.remove(k)[i] == (if i < k {
            s[i]
        } else {
            s[i + 1]
        }));
    }
}

/// Removing a sub-object entry from a tier keeps the object well-formed.
proof fn lemma_wf_after_sub_remove(o: ObjectView, v: Visibility, k: int)
    requires
        o.wf(),
        0 <= k < o.subs_at(v).len(),
    ensures
        o.with_subs_at(v, o.subs_at(v).remove(k)).wf(),
{
    let s = o.subs_at(v);
    lemma_subs_remove(s, k);
    let o1 = o.with_subs_at(v, s.remove(k));
    assert forall|i: int, j: int|
        0 <= i < s.remove(k).len() && 0 <= j < o.intsub.len() && v == Visibility::Public implies s
        .remove(k)[i].id != o.intsub[j].id by {}
    assert(ids_below(s.remove(k), o.next_id));
    assert forall|a: Visibility, b: Visibility|
        a != b && no_common_ids(o.subs_at(a), o.subs_at(b)) && v == a implies no_common_ids(
        s.remove(k),
        o.subs_at(b),
    ) by {}
}

/// Adding a brand-new sub-object entry carrying the next id, and stepping
/// the counter, keeps the object well-formed.
proof fn lemma_wf_after_sub_new(o: ObjectView, v: Visibility, x: ObjVecView)
    requires
        o.wf(),
        !has_sub_named(o.subs_at(v), x.obj.name),
        x.id == o.next_id,
    ensures
        (ObjectView { next_id: o.next_id + 1, ..o.with_subs_at(v, o.subs_at(v).push(x)) }).wf(),
{
    lemma_unique_subs_push(o.subs_at(v), x);
    let s1 = o.subs_at(v).push(x);
    assert forall|i: int, j: int| 0 <= i < j < s1.len() implies s1[i].id != s1[j].id by {
        if j == s1.len() - 1 {
            assert(s1[i] == o.subs_at(v)[i]);
        }
    }
}

/// Add a service at a tier, as the `AddSrv` command semantics says.
fn do_add_service(s: &mut Object, v: Visibility, srv: &Service) -> (r: Result<
    (),
    TransactionError,
>)
    requires
        old(s)@.wf(),
    ensures
        match step(old(s)@, CommandView::AddSrv(v, srv@)) {
            Ok(t) => r is Ok && final(s)@ == t && final(s)@.wf() && final(s)@.next_id == old(
                s,
            )@.next_id,
            Err(e) => r == Err::<(), TransactionError>(e) && *final(s) == *old(s),
        },
{
    let dup = srv.duplicate();
    match v {
        Visibility::Public => {
            match vec_add_service(&mut s.pubsrv, dup) {
                Ok(()) => {
                    proof {
                        lemma_wf_after_service_push(old(s)@, v, srv@);
                        assert(s@ =~= old(s)@.with_services_at(
                            v,
                            old(s)@.services_at(v).push(srv@),
                        ));
                    }
                    Ok(())
                },
                Err(e) => Err(e),
            }
        },
        Visibility::Internal => {
            match vec_add_service(&mut s.intsrv, dup) {
                Ok(()) => {
                    proof {
                        lemma_wf_after_service_push(old(s)@, v, srv@);
                        assert(s@ =~= old(s)@.with_services_at(
                            v,
                            old(s)@.services_at(v).push(srv@),
                        ));
                    }
                    Ok(())
                },
                Err(e) => Err(e),
            }
        },
        Visibility::Private => {
            match vec_add_service(&mut s.privsrv, dup) {
                Ok(()) => {
                    proof {
                        lemma_wf_after_service_push(old(s)@, v, srv@);
                        assert(s@ =~= old(s)@.with_services_at(
                            v,
                            old(s)@.services_at(v).push(srv@),
                        ));
                    }
                    Ok(())
                },
                Err(e) => Err(e),
            }
        },
    }
}

/// Remove the service with the command's name from a tier, as the `RemSrv`
/// command semantics says.
fn do_remove_service(s: &mut Object, v: Visibility, name: &String) -> (r: Result<
    Service,
    TransactionError,
>)
    requires
        old(s)@.wf(),
    ensures
        match r {
            Ok(_) => final(s)@.wf() && final(s)@.next_id == old(s)@.next_id,
            Err(_) => *final(s) == *old(s),
        },
        match r {
            Ok(_) => has_service_named(old(s)@.services_at(v), name@) && final(s)@ == old(
                s,
            )@.with_services_at(
                v,
                old(s)@.services_at(v).remove(
                    index_of_service(old(s)@.services_at(v), name@),
                ),
            ),
            Err(e) => e == TransactionError::NotFound && !has_service_named(
                old(s)@.services_at(v),
                name@,
            ),
        },
{
    let r = match v {
        Visibility::Public => vec_remove_service(&mut s.pubsrv, name),
        Visibility::Internal => vec_remove_service(&mut s.intsrv, name),
        Visibility::Private => vec_remove_service(&mut s.privsrv, name),
    };
    match r {
        Ok(srv) => {
            proof {
                let k = index_of_service(old(s)@.services_at(v), name@);
                lemma_wf_after_service_remove(old(s)@, v, k);
                assert(s@ =~= old(s)@.with_services_at(
                    v,
                    old(s)@.services_at(v).remove(k),
                ));
            }
            Ok(srv)
        },
        Err(e) => Err(e),
    }
}

} // verus!

verus! {

/// Whether one tier holds a service with this name.
fn tier_has_service(s: &Object, v: Visibility, name: &String) -> (r: bool)
    ensures
        r == has_service_named(s@.services_at(v), name@),
{
    let found = match v {
        Visibility::Public => find_service_index(&s.pubsrv, name),
        Visibility::Internal => find_service_index(&s.intsrv, name),
        Visibility::Private => find_service_index(&s.privsrv, name),
    };
    match found {
        Some(k) => {
            proof {
                assert(s@.services_at(v)[k as int].name == name@);
            }
            true
        },
        None => false,
    }
}

/// Whether one tier holds a sub-object with this name.
fn tier_has_sub(s: &Object, v: Visibility, name: &String) -> (r: bool)
    ensures
        r == has_sub_named(s@.subs_at(v), name@),
{
    let found = match v {
        Visibility::Public => find_sub_index(&s.pubsub, name),
        Visibility::Internal => find_sub_index(&s.intsub, name),
        Visibility::Private => find_sub_index(&s.privsub, name),
    };
    match found {
        Some(k) => {
            proof {
                lemma_sub_views(s.pubsub@);
                lemma_sub_views(s.intsub@);
                lemma_sub_views(s.privsub@);
                assert(s@.subs_at(v)[k as int].obj.name == name@);
            }
            true
        },
        None => false,
    }
}

/// Moving a named sub-object entry from one tier to another keeps the
/// object well-formed.
proof fn lemma_wf_after_sub_move(o: ObjectView, f: Visibility, to: Visibility, k: int)
    requires
        o.wf(),
        f != to,
        0 <= k < o.subs_at(f).len(),
        !has_sub_named(o.subs_at(to), o.subs_at(f)[k].obj.name),
    ensures
        ({
            let s1 = o.with_subs_at(f, o.subs_at(f).remove(k));
            s1.with_subs_at(to, s1.subs_at(to).push(o.subs_at(f)[k])).wf()
        }),
{
    let x = o.subs_at(f)[k];
    lemma_subs_remove(o.subs_at(f), k);
    lemma_sub_id_gone(o.subs_at(f), k);
    lemma_unique_subs_push(o.subs_at(to), x);
    let s1 = o.with_subs_at(f, o.subs_at(f).remove(k));
    let s2 = s1.with_subs_at(to, s1.subs_at(to).push(x));
    assert forall|i: int, j: int|
        0 <= i < j < s2.subs_at(to).len() implies s2.subs_at(to)[i].id != s2.subs_at(
        to,
    )[j].id by {
        if j == s2.subs_at(to).len() - 1 {
            assert(s2.subs_at(to)[i] == o.subs_at(to)[i]);
        }
    }
}

/// Move a named service from one tier list to another whose names stay
/// unique.
fn move_service(a: &mut Vec<Service>, b: &mut Vec<Service>, name: &String)
    requires
        unique_service_names(service_views(old(a)@)),
        has_service_named(service_views(old(a)@), name@),
        !has_service_named(service_views(old(b)@), name@),
    ensures
        ({
            let k = index_of_service(service_views(old(a)@), name@);
            &&& service_views(final(a)@) == service_views(old(a)@).remove(k)
            &&& service_views(final(b)@) == service_views(old(b)@).push(
                service_views(old(a)@)[k],
            )
        }),
{
    match vec_remove_service(a, name) {
        Ok(srv) => {
            match vec_add_service(b, srv) {
                Ok(()) => {},
                Err(_) => {
                    proof {
                        assert(false);
                    }
                },
            }
        },
        Err(_) => {
            proof {
                assert(false);
            }
        },
    }
}

/// Move a named sub-object entry from one tier list to another whose names
/// stay unique.
fn move_sub(a: &mut Vec<ObjectVector>, b: &mut Vec<ObjectVector>, name: &String)
    requires
        unique_sub_names(sub_views(old(a)@)),
        has_sub_named(sub_views(old(a)@), name@),
        !has_sub_named(sub_views(old(b)@), name@),
    ensures
        ({
            let k = index_of_sub(sub_views(old(a)@), name@);
            &&& sub_views(final(a)@) == sub_views(old(a)@).remove(k)
            &&& sub_views(final(b)@) == sub_views(old(b)@).push(sub_views(old(a)@)[k])
        }),
{
    match vec_remove_sub(a, name) {
        Ok(entry) => {
            match vec_add_sub(b, entry) {
                Ok(()) => {},
                Err(_) => {
                    proof {
                        assert(false);
                    }
                },
            }
        },
        Err(_) => {
            proof {
                assert(false);
            }
        },
    }
}

} // verus!

verus! {

/// Move the service with the command's name to a new tier, as the
/// `ChgSrvVis` command semantics says.
fn do_change_service(
    s: &mut Object,
    name: &String,
    to: Visibility,
    from: Option<Visibility>,
) -> (r: Result<(), TransactionError>)
    requires
        old(s)@.wf(),
    ensures
        ({
            let srcv = service_source_tier(old(s)@, from, name@);
            match srcv {
                None => r == Err::<(), TransactionError>(TransactionError::NotFound) && *final(s)
                    == *old(s),
                Some(f) => {
                    if f == to {
                        r == Err::<(), TransactionError>(TransactionError::AlreadyAtVisibility)
                            && *final(s) == *old(s)
                    } else if has_service_named(old(s)@.services_at(to), name@) {
                        r == Err::<(), TransactionError>(TransactionError::DuplicateName)
                            && *final(s) == *old(s)
                    } else {
                        let k = index_of_service(old(s)@.services_at(f), name@);
                        let moved = old(s)@.services_at(f)[k];
                        let s1 = old(s)@.with_services_at(f, old(s)@.services_at(f).remove(k));
                        r is Ok && final(s)@ == s1.with_services_at(
                            to,
                            s1.services_at(to).push(moved),
                        ) && final(s)@.wf() && final(s)@.next_id == old(s)@.next_id
                    }
                },
            }
        }),
{
    let src: Option<Visibility> = match from {
        Some(f) => if tier_has_service(s, f, name) {
            Some(f)
        } else {
            None
        },
        None => if tier_has_service(s, Visibility::Public, name) {
            Some(Visibility::Public)
        } else if tier_has_service(s, Visibility::Internal, name) {
            Some(Visibility::Internal)
        } else if tier_has_service(s, Visibility::Private, name) {
            Some(Visibility::Private)
        } else {
            None
        },
    };
    let f = match src {
        None => {
            return Err(TransactionError::NotFound);
        },
        Some(f) => f,
    };
    if f == to {
        return Err(TransactionError::AlreadyAtVisibility);
    }
    if tier_has_service(s, to, name) {
        return Err(TransactionError::DuplicateName);
    }
    proof {
        let k = index_of_service(old(s)@.services_at(f), name@);
        lemma_wf_after_service_remove(old(s)@, f, k);
        let s1 = old(s)@.with_services_at(f, old(s)@.services_at(f).remove(k));
        lemma_unique_services_remove(old(s)@.services_at(f), k);
        lemma_wf_after_service_push(s1, to, old(s)@.services_at(f)[k]);
    }
    match (f, to) {
        (Visibility::Public, Visibility::Internal) => {
            move_service(&mut s.pubsrv, &mut s.intsrv, name);
        },
        (Visibility::Public, Visibility::Private) => {
            move_service(&mut s.pubsrv, &mut s.privsrv, name);
        },
        (Visibility::Internal, Visibility::Public) => {
            move_service(&mut s.intsrv, &mut s.pubsrv, name);
        },
        (Visibility::Internal, Visibility::Private) => {
            move_service(&mut s.intsrv, &mut s.privsrv, name);
        },
        (Visibility::Private, Visibility::Public) => {
            move_service(&mut s.privsrv, &mut s.pubsrv, name);
        },
        (Visibility::Private, Visibility::Internal) => {
            move_service(&mut s.privsrv, &mut s.intsrv, name);
        },
        _ => {
            proof {
                assert(false);
            }
        },
    }
    proof {
        let k = index_of_service(old(s)@.services_at(f), name@);
        let moved = old(s)@.services_at(f)[k];
        let s1 = old(s)@.with_services_at(f, old(s)@.services_at(f).remove(k));
        assert(s@ =~= s1.with_services_at(to, s1.services_at(to).push(moved)));
    }
    Ok(())
}

/// Move the sub-object with the command's name to a new tier, as the
/// `ChgSubObjVis` command semantics says.
fn do_change_sub(
    s: &mut Object,
    name: &String,
    to: Visibility,
    from: Option<Visibility>,
) -> (r: Result<(), TransactionError>)
    requires
        old(s)@.wf(),
    ensures
        ({
            let srcv = sub_source_tier(old(s)@, from, name@);
            match srcv {
                None => r == Err::<(), TransactionError>(TransactionError::NotFound) && *final(s)
                    == *old(s),
                Some(f) => {
                    if f == to {
                        r == Err::<(), TransactionError>(TransactionError::AlreadyAtVisibility)
                            && *final(s) == *old(s)
                    } else if has_sub_named(old(s)@.subs_at(to), name@) {
                        r == Err::<(), TransactionError>(TransactionError::DuplicateName)
                            && *final(s) == *old(s)
                    } else {
                        let k = index_of_sub(old(s)@.subs_at(f), name@);
                        let moved = old(s)@.subs_at(f)[k];
                        let s1 = old(s)@.with_subs_at(f, old(s)@.subs_at(f).remove(k));
                        r is Ok && final(s)@ == s1.with_subs_at(
                            to,
                            s1.subs_at(to).push(moved),
                        ) && final(s)@.wf() && final(s)@.next_id == old(s)@.next_id
                    }
                },
            }
        }),
{
    let src: Option<Visibility> = match from {
        Some(f) => if tier_has_sub(s, f, name) {
            Some(f)
        } else {
            None
        },
        None => if tier_has_sub(s, Visibility::Public, name) {
            Some(Visibility::Public)
        } else if tier_has_sub(s, Visibility::Internal, name) {
            Some(Visibility::Internal)
        } else if tier_has_sub(s, Visibility::Private, name) {
            Some(Visibility::Private)
        } else {
            None
        },
    };
    let f = match src {
        None => {
            return Err(TransactionError::NotFound);
        },
        Some(f) => f,
    };
    if f == to {
        return Err(TransactionError::AlreadyAtVisibility);
    }
    if tier_has_sub(s, to, name) {
        return Err(TransactionError::DuplicateName);
    }
    proof {
        let k = index_of_sub(old(s)@.subs_at(f), name@);
        lemma_wf_after_sub_move(old(s)@, f, to, k);
    }
    match (f, to) {
        (Visibility::Public, Visibility::Internal) => {
            move_sub(&mut s.pubsub, &mut s.intsub, name);
        },
        (Visibility::Public, Visibility::Private) => {
            move_sub(&mut s.pubsub, &mut s.privsub, name);
        },
        (Visibility::Internal, Visibility::Public) => {
            move_sub(&mut s.intsub, &mut s.pubsub, name);
        },
        (Visibility::Internal, Visibility::Private) => {
            move_sub(&mut s.intsub, &mut s.privsub, name);
        },
        (Visibility::Private, Visibility::Public) => {
            move_sub(&mut s.privsub, &mut s.pubsub, name);
        },
        (Visibility::Private, Visibility::Internal) => {
            move_sub(&mut s.privsub, &mut s.intsub, name);
        },
        _ => {
            proof {
                assert(false);
            }
        },
    }
    proof {
        let k = index_of_sub(old(s)@.subs_at(f), name@);
        let moved = old(s)@.subs_at(f)[k];
        let s1 = old(s)@.with_subs_at(f, old(s)@.subs_at(f).remove(k));
        assert(s@ =~= s1.with_subs_at(to, s1.subs_at(to).push(moved)));
    }
    Ok(())
}

/// Add a sub-object at a tier under a fresh id, as the `NewSubObj` command
/// semantics says.
fn do_new_sub(s: &mut Object, v: Visibility, o: &Object) -> (r: Result<(), TransactionError>)
    requires
        old(s)@.wf(),
        old(s)@.next_id < u32::MAX as nat,
    ensures
        match step(old(s)@, CommandView::NewSubObj(v, o@)) {
            Ok(t) => r is Ok && final(s)@ == t && final(s)@.wf() && final(s)@.next_id == old(
                s,
            )@.next_id + 1,
            Err(e) => r == Err::<(), TransactionError>(e) && *final(s) == *old(s),
        },
{
    let entry = ObjectVector { obj: o.duplicate(), id: s.next_id };
    let ghost ev = entry@;
    let pushed = match v {
        Visibility::Public => vec_add_sub(&mut s.pubsub, entry),
        Visibility::Internal => vec_add_sub(&mut s.intsub, entry),
        Visibility::Private => vec_add_sub(&mut s.privsub, entry),
    };
    match pushed {
        Ok(()) => {
            proof {
                lemma_wf_after_sub_new(old(s)@, v, ev);
            }
            s.next_id = s.next_id + 1;
            proof {
                let t = ObjectView {
                    next_id: old(s)@.next_id + 1,
                    ..old(s)@.with_subs_at(v, old(s)@.subs_at(v).push(ev))
                };
                assert(s@ =~= t);
            }
            Ok(())
        },
        Err(e) => Err(e),
    }
}

/// Remove the sub-object with the command's name from a tier, as the
/// `RemSubObj` command semantics says.
fn do_remove_sub(s: &mut Object, v: Visibility, name: &String) -> (r: Result<
    (),
    TransactionError,
>)
    requires
        old(s)@.wf(),
    ensures
        match r {
            Ok(_) => final(s)@.wf() && final(s)@.next_id == old(s)@.next_id,
            Err(_) => *final(s) == *old(s),
        },
        match r {
            Ok(_) => has_sub_named(old(s)@.subs_at(v), name@) && final(s)@ == old(
                s,
            )@.with_subs_at(
                v,
                old(s)@.subs_at(v).remove(index_of_sub(old(s)@.subs_at(v), name@)),
            ),
            Err(e) => e == TransactionError::NotFound && !has_sub_named(
                old(s)@.subs_at(v),
                name@,
            ),
        },
{
    let r = match v {
        Visibility::Public => vec_remove_sub(&mut s.pubsub, name),
        Visibility::Internal => vec_remove_sub(&mut s.intsub, name),
        Visibility::Private => vec_remove_sub(&mut s.privsub, name),
    };
    match r {
        Ok(_) => {
            proof {
                let k = index_of_sub(old(s)@.subs_at(v), name@);
                lemma_wf_after_sub_remove(old(s)@, v, k);
                assert(s@ =~= old(s)@.with_subs_at(v, old(s)@.subs_at(v).remove(k)));
            }
            Ok(())
        },
        Err(e) => Err(e),
    }
}

/// Mark the object as implementing an interface, as the `ImplInt` command
/// semantics says.
fn do_impl_int(s: &mut Object, i: &Interface) -> (r: Result<(), TransactionError>)
    requires
        old(s)@.wf(),
    ensures
        match step(old(s)@, CommandView::ImplInt(i@)) {
            Ok(t) => r is Ok && final(s)@ == t && final(s)@.wf() && final(s)@.next_id == old(
                s,
            )@.next_id,
            Err(e) => r == Err::<(), TransactionError>(e) && *final(s) == *old(s),
        },
{
    if !deps_met_exec(&s.ints, &i.dep.tree) {
        return Err(TransactionError::UnmetDependency);
    }
    if !services_present_exec(&s.pubsrv, &i.serv) {
        return Err(TransactionError::MissingService);
    }
    if conflict_exec(&s.ints, i) {
        return Err(TransactionError::IncompatibleVersion);
    }
    match find_interface_index(&s.ints, i) {
        Some(k) => {
            proof {
                assert(dep_includes(interface_views(s.ints@), i@));
            }
            Ok(())
        },
        None => {
            let ghost pre = s.ints@;
            s.ints.push(i.duplicate());
            proof {
                assert(interface_views(s.ints@) =~= interface_views(pre).push(i@));
                assert forall|a: int, b: int|
                    0 <= a < b < interface_views(s.ints@).len() implies interface_views(
                    s.ints@,
                )[a] != interface_views(s.ints@)[b] by {
                    if b == interface_views(s.ints@).len() - 1 {
                        assert(interface_views(s.ints@)[a] == interface_views(pre)[a]);
                    }
                }
                assert(s@ =~= (ObjectView { ints: interface_views(pre).push(i@), ..old(s)@ }));
            }
            Ok(())
        },
    }
}

/// Remove an interface from the object's implemented set, as the
/// `UnimplInt` command semantics says.
fn do_unimpl_int(s: &mut Object, i: &Interface) -> (r: Result<(), TransactionError>)
    requires
        old(s)@.wf(),
    ensures
        match step(old(s)@, CommandView::UnimplInt(i@)) {
            Ok(t) => r is Ok && final(s)@ == t && final(s)@.wf() && final(s)@.next_id == old(
                s,
            )@.next_id,
            Err(e) => r == Err::<(), TransactionError>(e) && *final(s) == *old(s),
        },
{
    match find_interface_index(&s.ints, i) {
        None => Err(TransactionError::NotFound),
        Some(k) => {
            proof {
                assert(dep_includes(interface_views(s.ints@), i@));
            }
            if dependent_exec(&s.ints, i) {
                return Err(TransactionError::DependentInterfaceActive);
            }
            let ghost pre = s.ints@;
            proof {
                lemma_index_of_interface(interface_views(pre), i@, k as int);
                interface_views(pre).remove_ensures(k as int);
            }
            s.ints.remove(k);
            proof {
                assert(interface_views(s.ints@) =~= interface_views(pre).remove(k as int));
                assert forall|a: int, b: int|
                    0 <= a < b < interface_views(s.ints@).len() implies interface_views(
                    s.ints@,
                )[a] != interface_views(s.ints@)[b] by {
                    assert(interface_views(s.ints@)[a] == (if a < k {
                        interface_views(pre)[a]
                    } else {
                        interface_views(pre)[a + 1]
                    }));
                    assert(interface_views(s.ints@)[b] == (if b < k {
                        interface_views(pre)[b]
                    } else {
                        interface_views(pre)[b + 1]
                    }));
                }
                assert(s@ =~= (ObjectView {
                    ints: interface_views(pre).remove(k as int),
                    ..old(s)@
                }));
            }
            Ok(())
        },
    }
}

} // verus!

verus! {

/// Run one command against the live state, mutating it only on success.
fn exec_step(s: &mut Object, c: &Command) -> (r: Result<(), TransactionError>)
    requires
        old(s)@.wf(),
        old(s)@.next_id < u32::MAX as nat,
    ensures
        match step(old(s)@, c@) {
            Ok(t) => r is Ok && final(s)@ == t && final(s)@.wf() && final(s)@.next_id <= old(
                s,
            )@.next_id + 1,
            Err(e) => r == Err::<(), TransactionError>(e) && *final(s) == *old(s),
        },
{
    match c {
        Command::AddSrv(v, srv) => do_add_service(s, *v, srv),
        Command::RemSrv(v, srv) => {
            match do_remove_service(s, *v, &srv.name) {
                Ok(_) => Ok(()),
                Err(e) => Err(e),
            }
        },
        Command::ChgSrvVis(srv, to, from) => do_change_service(s, &srv.name, *to, *from),
        Command::NewSubObj(v, o) => do_new_sub(s, *v, o),
        Command::RemSubObj(v, o) => do_remove_sub(s, *v, &o.name),
        Command::ChgSubObjVis(o, to, from) => do_change_sub(s, &o.name, *to, *from),
        Command::ImplInt(i) => do_impl_int(s, i),
        Command::UnimplInt(i) => do_unimpl_int(s, i),
    }
}

/// Transaction allows making multiple changes to an object as a single
/// operation: either every recorded command takes effect, or none does.
pub struct ObjectTransaction {
    /// The commands, in the order the caller appended them.
    pub cmds: Vec<Command>,
}

impl View for ObjectTransaction {
    type V = Seq<CommandView>;

    /// A transaction is modeled by its commands' values, in order.
    open spec fn view(&self) -> Seq<CommandView> {
        self.cmds@.map_values(|c: Command| c@)
    }
}

impl Default for ObjectTransaction {
    /// A transaction with no commands yet.
    fn default() -> (t: Self)
        ensures
            t@ == Seq::<CommandView>::empty(),
    {
        ObjectTransaction::new()
    }
}

impl ObjectTransaction {
    /// A transaction with no commands yet.
    pub fn new() -> (t: Self)
        ensures
            t@ == Seq::<CommandView>::empty(),
    {
        let t = ObjectTransaction { cmds: Vec::new() };
        proof {
            assert(t@ =~= Seq::<CommandView>::empty());
        }
        t
    }

    /// Record one command at the end of the batch.
    fn pushcmd(&mut self, cmd: Command)
        ensures
            final(self)@ == old(self)@.push(cmd@),
    {
        let ghost cv = cmd@;
        self.cmds.push(cmd);
        proof {
            assert(self@ =~= old(self)@.push(cv));
        }
    }

    /// Add a new public service.
    pub fn add_public_service(&mut self, srv: Service)
        ensures
            final(self)@ == old(self)@.push(CommandView::AddSrv(Visibility::Public, srv@)),
    {
        self.pushcmd(Command::AddSrv(Visibility::Public, srv));
    }

    /// Add a new internal service.
    pub fn add_internal_service(&mut self, srv: Service)
        ensures
            final(self)@ == old(self)@.push(CommandView::AddSrv(Visibility::Internal, srv@)),
    {
        self.pushcmd(Command::AddSrv(Visibility::Internal, srv));
    }

    /// Add a new private service.
    pub fn add_private_service(&mut self, srv: Service)
        ensures
            final(self)@ == old(self)@.push(CommandView::AddSrv(Visibility::Private, srv@)),
    {
        self.pushcmd(Command::AddSrv(Visibility::Private, srv));
    }

    /// Add a service at the given visibility.
    pub fn add_service(&mut self, srv: Service, vis: Visibility)
        ensures
            final(self)@ == old(self)@.push(CommandView::AddSrv(vis, srv@)),
    {
        self.pushcmd(Command::AddSrv(vis, srv));
    }

    /// Remove the public service carrying this service's name.
    pub fn remove_public_service(&mut self, srv: Service)
        ensures
            final(self)@ == old(self)@.push(CommandView::RemSrv(Visibility::Public, srv@)),
    {
        self.pushcmd(Command::RemSrv(Visibility::Public, srv));
    }

    /// Remove the internal service carrying this service's name.
    pub fn remove_internal_service(&mut self, srv: Service)
        ensures
            final(self)@ == old(self)@.push(CommandView::RemSrv(Visibility::Internal, srv@)),
    {
        self.pushcmd(Command::RemSrv(Visibility::Internal, srv));
    }

    /// Remove the private service carrying this service's name.
    pub fn remove_private_service(&mut self, srv: Service)
        ensures
            final(self)@ == old(self)@.push(CommandView::RemSrv(Visibility::Private, srv@)),
    {
        self.pushcmd(Command::RemSrv(Visibility::Private, srv));
    }

    /// Change the visibility of the service carrying this service's name.
    /// If the service's current visibility is not passed, the tiers are
    /// searched in public, internal, private order.
    pub fn change_service_access(
        &mut self,
        srv: Service,
        newvis: Visibility,
        oldvis: Option<Visibility>,
    )
        ensures
            final(self)@ == old(self)@.push(CommandView::ChgSrvVis(srv@, newvis, oldvis)),
    {
        self.pushcmd(Command::ChgSrvVis(srv, newvis, oldvis));
    }

    /// Create a new public sub-object.
    pub fn new_public_sub_object(&mut self, obj: Object)
        ensures
            final(self)@ == old(self)@.push(CommandView::NewSubObj(Visibility::Public, obj@)),
    {
        self.pushcmd(Command::NewSubObj(Visibility::Public, obj));
    }

    /// Create a new internal sub-object.
    pub fn new_internal_sub_object(&mut self, obj: Object)
        ensures
            final(self)@ == old(self)@.push(CommandView::NewSubObj(Visibility::Internal, obj@)),
    {
        self.pushcmd(Command::NewSubObj(Visibility::Internal, obj));
    }

    /// Create a new private sub-object.
    pub fn new_private_sub_object(&mut self, obj: Object)
        ensures
            final(self)@ == old(self)@.push(CommandView::NewSubObj(Visibility::Private, obj@)),
    {
        self.pushcmd(Command::NewSubObj(Visibility::Private, obj));
    }

    /// Delete the private sub-object carrying this object's name.
    pub fn remove_private_sub_object(&mut self, obj: Object)
        ensures
            final(self)@ == old(self)@.push(CommandView::RemSubObj(Visibility::Private, obj@)),
    {
        self.pushcmd(Command::RemSubObj(Visibility::Private, obj));
    }

    /// Delete the internal sub-object carrying this object's name.
    pub fn remove_internal_sub_object(&mut self, obj: Object)
        ensures
            final(self)@ == old(self)@.push(CommandView::RemSubObj(Visibility::Internal, obj@)),
    {
        self.pushcmd(Command::RemSubObj(Visibility::Internal, obj));
    }

    /// Delete the public sub-object carrying this object's name.
    pub fn remove_public_sub_object(&mut self, obj: Object)
        ensures
            final(self)@ == old(self)@.push(CommandView::RemSubObj(Visibility::Public, obj@)),
    {
        self.pushcmd(Command::RemSubObj(Visibility::Public, obj));
    }

    /// Change the visibility of the sub-object carrying this object's name.
    /// If the sub-object's current visibility is not passed, the tiers are
    /// searched in public, internal, private order.
    pub fn change_sub_object_access(
        &mut self,
        obj: Object,
        newvis: Visibility,
        oldvis: Option<Visibility>,
    )
        ensures
            final(self)@ == old(self)@.push(CommandView::ChgSubObjVis(obj@, newvis, oldvis)),
    {
        self.pushcmd(Command::ChgSubObjVis(obj, newvis, oldvis));
    }

    /// Mark the target object as an implementer of this interface.
    pub fn implement_interface(&mut self, i: Interface)
        ensures
            final(self)@ == old(self)@.push(CommandView::ImplInt(i@)),
    {
        self.pushcmd(Command::ImplInt(i));
    }

    /// Record that the target object no longer implements this interface.
    pub fn unimplement_interface(&mut self, i: Interface)
        ensures
            final(self)@ == old(self)@.push(CommandView::UnimplInt(i@)),
    {
        self.pushcmd(Command::UnimplInt(i));
    }

    /// Apply the recorded commands to the object, in order, as one atomic
    /// step: on the first command that fails validation the object is left
    /// exactly as it was and that command's error is returned; only if every
    /// command validates does the object change, to the state the command
    /// sequence prescribes.
    pub fn apply_to_object(self, obj: &mut Object) -> (r: Result<(), TransactionError>)
        requires
            old(obj)@.wf(),
            old(obj)@.next_id + self@.len() <= u32::MAX as nat,
        ensures
            match run(old(obj)@, self@) {
                Ok(t) => r is Ok && final(obj)@ == t && final(obj)@.wf(),
                Err(e) => r == Err::<(), TransactionError>(e) && *final(obj) == *old(obj),
            },
    {
        let mut shadow = obj.duplicate();
        let n = self.cmds.len();
        let mut j: usize = 0;
        proof {
            assert(self@.skip(0) =~= self@);
        }
        loop
            invariant
                j <= n,
                n == self.cmds@.len(),
                self@.len() == n,
                shadow@.wf(),
                shadow@.next_id <= old(obj)@.next_id + j,
                run(old(obj)@, self@) == run(shadow@, self@.skip(j as int)),
                *obj == *old(obj),
                old(obj)@.next_id + self@.len() <= u32::MAX as nat,
            decreases n - j,
        {
            if j == n {
                proof {
                    assert(self@.skip(j as int) =~= Seq::<CommandView>::empty());
                }
                *obj = shadow;
                return Ok(());
            }
            proof {
                assert(self@.skip(j as int)[0] == self@[j as int]);
                assert(self@[j as int] == self.cmds@[j as int]@);
            }
            match exec_step(&mut shadow, &self.cmds[j]) {
                Ok(()) => {
                    proof {
                        assert(self@.skip(j as int).skip(1) =~= self@.skip(j + 1));
                    }
                    j = j + 1;
                },
                Err(e) => {
                    return Err(e);
                },
            }
        }
    }
}

} // verus!
