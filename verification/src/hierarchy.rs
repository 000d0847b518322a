//! Navigation over one level of the object tree, and the boundary contracts
//! for hosts that load interfaces and implementers from outside sources. The
//! core never trusts loader output: a claimed implementation only enters an
//! object through a transaction, which validates it.

use vstd::prelude::*;
use std::rc::Rc;
use crate::interface::Interface;
use crate::interface::Package;
use crate::object::Object;
use crate::object::ObjectVector;
use crate::object::service_views;
use crate::object::sub_views;
use crate::service::Service;

verus! {

/// Object hierarchy of the network: the object at the current level,
/// navigable one step down per visibility tier.
pub struct ObjectHierarchy {
    /// The object this level of the hierarchy stands at.
    pub current: Object,
}

/// Source of interfaces. When some yet unknown interface is requested, the
/// host calls the registered InterfaceLoaders to look the interface up, and
/// decides which of the found candidates to register into the catalog.
pub trait InterfaceLoader {
    /// Look for interfaces matching the query in this source. The results
    /// are untrusted candidates.
    fn find_interface(&mut self, query: &String) -> Vec<Rc<Interface>>;

    /// Look for packages matching the query in this source.
    fn find_package(&mut self, query: &String) -> Vec<Rc<Package>>;
}

/// Source of interface implementers. When the network needs an object that
/// implements given interfaces, the host calls the registered
/// ImplementerLoaders to find candidate objects; each claim is validated
/// through a transaction before it takes effect.
pub trait ImplementerLoader {
    /// Look for objects claiming to implement the given interface in this
    /// source. The results are untrusted candidates.
    fn find_implementer(&mut self, interface: &Interface) -> Vec<Object>;
}

impl ObjectHierarchy {
    /// Stand a hierarchy level at the given object.
    pub fn new(current: Object) -> (h: Self)
        ensures
            h.current@ == current@,
    {
        ObjectHierarchy { current }
    }

    /// Object at the current level of hierarchy.
    pub fn current_object(&self) -> (r: &Object)
        ensures
            r@ == self.current@,
    {
        &self.current
    }

    /// All public objects one step lower in hierarchy.
    pub fn public_sub_objects(&self) -> (r: &Vec<ObjectVector>)
        ensures
            sub_views(r@) == self.current@.pubsub,
    {
        &self.current.pubsub
    }

    /// All internal objects one step lower in hierarchy.
    pub fn internal_sub_objects(&self) -> (r: &Vec<ObjectVector>)
        ensures
            sub_views(r@) == self.current@.intsub,
    {
        &self.current.intsub
    }

    /// All private objects one step lower in hierarchy.
    pub fn private_sub_objects(&self) -> (r: &Vec<ObjectVector>)
        ensures
            sub_views(r@) == self.current@.privsub,
    {
        &self.current.privsub
    }

    /// All public services at the current level of hierarchy.
    pub fn public_services(&self) -> (r: &Vec<Service>)
        ensures
            service_views(r@) == self.current@.pubsrv,
    {
        &self.current.pubsrv
    }

    /// All internal services at the current level of hierarchy.
    pub fn internal_services(&self) -> (r: &Vec<Service>)
        ensures
            service_views(r@) == self.current@.intsrv,
    {
        &self.current.intsrv
    }

    /// All private services at the current level of hierarchy.
    pub fn private_services(&self) -> (r: &Vec<Service>)
        ensures
            service_views(r@) == self.current@.privsrv,
    {
        &self.current.privsrv
    }
}

} // verus!
