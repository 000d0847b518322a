//! Services: named, versioned capabilities an object offers, and the
//! architecture hook that binds a service descriptor to an executable
//! entry point.

use vstd::prelude::*;
use crate::version::InterfaceVersion;

verus! {

/// Service is called when some object needs to solve some problem which
/// this service can carry out.
#[derive(PartialEq, Eq)]
pub struct Service {
    /// The name of the capability, unique within one visibility tier.
    pub name: String,
    /// The version the capability is offered at.
    pub ver: InterfaceVersion,
}

/// Mathematical value of a service: its name's characters and its version.
#[verifier::ext_equal]
pub struct ServiceView {
    pub name: Seq<char>,
    pub ver: InterfaceVersion,
}

impl View for Service {
    type V = ServiceView;

    open spec fn view(&self) -> ServiceView {
        ServiceView { name: self.name@, ver: self.ver }
    }
}

/// Architecture-dependent fields and functions of a service: anything that
/// can hand out the service descriptor it is built around.
pub trait ServiceArch {
    /// Service component of the implementing value.
    fn service(&self) -> &Service;
}

impl ServiceArch for Service {
    fn service(&self) -> &Service {
        self
    }
}

impl Service {
    /// Bind a name and a version into a service descriptor.
    pub fn new(name: String, ver: InterfaceVersion) -> (s: Self)
        ensures
            s@ == (ServiceView { name: name@, ver }),
    {
        Service { name, ver }
    }

    /// The name of this service.
    pub fn name(&self) -> (r: &String)
        ensures
            r@ == self@.name,
    {
        &self.name
    }

    /// The version of this service.
    pub fn version(&self) -> (r: &InterfaceVersion)
        ensures
            r == self@.ver,
    {
        &self.ver
    }

    /// A copy of this service.
    pub fn duplicate(&self) -> (r: Service)
        ensures
            r@ == self@,
    {
        Service { name: self.name.clone(), ver: self.ver }
    }

    /// Whether this service and the other carry the same name and version.
    pub fn eq_service(&self, other: &Service) -> (r: bool)
        ensures
            r == (self@ == other@),
    {
        let r = self.name.eq(&other.name) && self.ver.major() == other.ver.major
            && self.ver.minor() == other.ver.minor && self.ver.patch() == other.ver.patch;
        proof {
            if r {
                assert(self@ =~= other@);
            }
        }
        r
    }
}

/// A copy of a service list, value for value.
pub(crate) fn dup_services(v: &Vec<Service>) -> (r: Vec<Service>)
    ensures
        v@.map_values(|x: Service| x@) == r@.map_values(|x: Service| x@),
        r@.len() == v@.len(),
{
    let n = v.len();
    let mut out: Vec<Service> = Vec::new();
    let mut j: usize = 0;
    while j < n
        invariant
            j <= n,
            n == v@.len(),
            out@.len() == j,
            forall|t: int| 0 <= t < j ==> #[trigger] out@[t]@ == v@[t]@,
        decreases n - j,
    {
        out.push(v[j].duplicate());
        j = j + 1;
    }
    proof {
        assert(out@.map_values(|x: Service| x@) =~= v@.map_values(|x: Service| x@));
    }
    out
}

/// Whether a sequence of services contains one with the given name.
pub open spec fn has_service_named(s: Seq<ServiceView>, name: Seq<char>) -> bool {
    exists|i: int| 0 <= i < s.len() && s[i].name == name
}

/// Find the index of the service with the given name, scanning from the front.
pub open spec fn index_of_service(s: Seq<ServiceView>, name: Seq<char>) -> int {
    choose|i: int| 0 <= i < s.len() && s[i].name == name
}

} // verus!
