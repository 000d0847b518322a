//! Master controller of the network: a thin façade that owns the root of
//! the object hierarchy and the interface catalog. All structural change
//! still goes through transactions, whose atomic semantics the façade
//! simply forwards.

use vstd::prelude::*;
use crate::catalog::InterfaceHierarchy;
use crate::catalog::catalog_wf;
use crate::hierarchy::ObjectHierarchy;
use crate::object::Object;
use crate::object::ObjectView;
use crate::object::find_service_index;
use crate::object::service_views;
use crate::objtrans::TransactionError;
use crate::objtrans::Visibility;
use crate::objtrans::run;
use crate::objtrans::service_source_tier;
use crate::service::Service;
use crate::service::has_service_named;
use crate::service::index_of_service;
use crate::object::lemma_index_of_named_service;
use crate::trans::Transaction;

verus! {

/// Master controller of the network.
pub struct Master {
    /// The root level of the object hierarchy.
    pub objs: ObjectHierarchy,
    /// The root of the interface catalog.
    pub ints: InterfaceHierarchy,
}

impl Master {
    /// A network with an empty root object of the given name and an empty
    /// interface catalog.
    pub fn new(root_name: String) -> (m: Self)
        ensures
            m.objs.current@ == (ObjectView {
                name: root_name@,
                pubsrv: Seq::empty(),
                intsrv: Seq::empty(),
                privsrv: Seq::empty(),
                ints: Seq::empty(),
                pubsub: Seq::empty(),
                intsub: Seq::empty(),
                privsub: Seq::empty(),
                next_id: 0,
            }),
            m.objs.current@.wf(),
            m.ints@.ints.len() == 0 && m.ints@.subs.len() == 0,
            catalog_wf(m.ints@),
    {
        Master {
            objs: ObjectHierarchy::new(Object::new(root_name)),
            ints: InterfaceHierarchy::new(String::new()),
        }
    }

    /// Apply the changes of the transaction to the root object, atomically.
    pub fn apply_transaction(&mut self, t: Transaction) -> (r: Result<(), TransactionError>)
        requires
            old(self).objs.current@.wf(),
            old(self).objs.current@.next_id + t@.len() <= u32::MAX as nat,
        ensures
            final(self).ints == old(self).ints,
            match run(old(self).objs.current@, t@) {
                Ok(s) => r is Ok && final(self).objs.current@ == s
                    && final(self).objs.current@.wf(),
                Err(e) => r == Err::<(), TransactionError>(e)
                    && final(self).objs.current == old(self).objs.current,
            },
    {
        t.apply_to_object(&mut self.objs.current)
    }

    /// Object hierarchy of the network.
    pub fn objects(&self) -> (r: &ObjectHierarchy)
        ensures
            r == self.objs,
    {
        &self.objs
    }

    /// Interface hierarchy of the network.
    pub fn interfaces(&self) -> (r: &InterfaceHierarchy)
        ensures
            r == self.ints,
    {
        &self.ints
    }

    /// Mutable access to the root object.
    pub fn make_object_mut(&mut self) -> (r: &mut Object)
        ensures
            *r == old(self).objs.current,
            final(self).objs.current == *final(r),
            final(self).ints == old(self).ints,
    {
        &mut self.objs.current
    }

    /// Mutable access to the service with the given name on the root
    /// object, searching the public, then internal, then private tier. A
    /// caller that renames the service through this handle answers for the
    /// per-tier name uniqueness itself; transactions are the checked way to
    /// change a registry.
    pub fn make_service_mut(&mut self, name: &String) -> (r: &mut Service)
        requires
            old(self).objs.current@.wf(),
            service_source_tier(old(self).objs.current@, None, name@) is Some,
        ensures
            final(self).ints == old(self).ints,
            ({
                let cur = old(self).objs.current@;
                let f = service_source_tier(cur, None::<Visibility>, name@)->Some_0;
                let tier = cur.services_at(f);
                let k = index_of_service(tier, name@);
                &&& r@ == tier[k]
                &&& final(self).objs.current@ == cur.with_services_at(
                    f,
                    tier.update(k, final(r)@),
                )
            }),
    {
        let cur = &mut self.objs.current;
        if let Some(k) = find_service_index(&cur.pubsrv, name) {
            proof {
                assert(has_service_named(service_views(cur.pubsrv@), name@));
                lemma_index_of_named_service(service_views(cur.pubsrv@), name@, k as int);
            }
            return &mut cur.pubsrv[k];
        }
        if let Some(k) = find_service_index(&cur.intsrv, name) {
            proof {
                assert(has_service_named(service_views(cur.intsrv@), name@));
                lemma_index_of_named_service(service_views(cur.intsrv@), name@, k as int);
            }
            return &mut cur.intsrv[k];
        }
        let k = match find_service_index(&cur.privsrv, name) {
            Some(k) => k,
            None => {
                proof {
                    assert(false);
                }
                0
            },
        };
        proof {
            assert(has_service_named(service_views(cur.privsrv@), name@));
            lemma_index_of_named_service(service_views(cur.privsrv@), name@, k as int);
        }
        &mut cur.privsrv[k]
    }
}

} // verus!
