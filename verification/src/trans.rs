//! The boxed-payload transaction front end. It records the same commands as
//! `ObjectTransaction` and applies them under the same atomic semantics; it
//! exists for callers that hold their services, objects and interfaces in
//! boxes.

use vstd::prelude::*;
use crate::service::Service;
use crate::interface::Interface;
use crate::object::Object;
use crate::objtrans::CommandView;
use crate::objtrans::ObjectTransaction;
use crate::objtrans::TransactionError;
use crate::objtrans::Visibility;
use crate::objtrans::run;

verus! {

/// Transaction allows making multiple changes to an object as a single
/// operation: either every recorded command takes effect, or none does.
pub struct Transaction {
    /// The commands recorded so far, in caller order.
    pub batch: ObjectTransaction,
}

impl View for Transaction {
    type V = Seq<CommandView>;

    /// A transaction is modeled by its commands' values, in order.
    open spec fn view(&self) -> Seq<CommandView> {
        self.batch@
    }
}

impl Transaction {
    /// A transaction with no commands yet.
    pub fn new() -> (t: Self)
        ensures
            t@ == Seq::<CommandView>::empty(),
    {
        Transaction { batch: ObjectTransaction::new() }
    }

    /// Add a new public service.
    pub fn add_public_service(&mut self, srv: Box<Service>)
        ensures
            final(self)@ == old(self)@.push(CommandView::AddSrv(Visibility::Public, srv@)),
    {
        self.batch.add_public_service(*srv);
    }

    /// Add a new internal service.
    pub fn add_internal_service(&mut self, srv: Box<Service>)
        ensures
            final(self)@ == old(self)@.push(CommandView::AddSrv(Visibility::Internal, srv@)),
    {
        self.batch.add_internal_service(*srv);
    }

    /// Add a new private service.
    pub fn add_private_service(&mut self, srv: Box<Service>)
        ensures
            final(self)@ == old(self)@.push(CommandView::AddSrv(Visibility::Private, srv@)),
    {
        self.batch.add_private_service(*srv);
    }

    /// Add a service at the given visibility.
    pub fn add_service(&mut self, srv: Box<Service>, vis: Visibility)
        ensures
            final(self)@ == old(self)@.push(CommandView::AddSrv(vis, srv@)),
    {
        self.batch.add_service(*srv, vis);
    }

    /// Remove the public service carrying this service's name.
    pub fn remove_public_service(&mut self, srv: Box<Service>)
        ensures
            final(self)@ == old(self)@.push(CommandView::RemSrv(Visibility::Public, srv@)),
    {
        self.batch.remove_public_service(*srv);
    }

    /// Remove the internal service carrying this service's name.
    pub fn remove_internal_service(&mut self, srv: Box<Service>)
        ensures
            final(self)@ == old(self)@.push(CommandView::RemSrv(Visibility::Internal, srv@)),
    {
        self.batch.remove_internal_service(*srv);
    }

    /// Remove the private service carrying this service's name.
    pub fn remove_private_service(&mut self, srv: Box<Service>)
        ensures
            final(self)@ == old(self)@.push(CommandView::RemSrv(Visibility::Private, srv@)),
    {
        self.batch.remove_private_service(*srv);
    }

    /// Change the visibility of the service carrying this service's name.
    /// If the service's current visibility is not passed, the tiers are
    /// searched in public, internal, private order.
    pub fn change_service_access(
        &mut self,
        srv: Box<Service>,
        newvis: Visibility,
        oldvis: Option<Visibility>,
    )
        ensures
            final(self)@ == old(self)@.push(CommandView::ChgSrvVis(srv@, newvis, oldvis)),
    {
        self.batch.change_service_access(*srv, newvis, oldvis);
    }

    /// Create a new public sub-object.
    pub fn new_public_sub_object(&mut self, obj: Box<Object>)
        ensures
            final(self)@ == old(self)@.push(CommandView::NewSubObj(Visibility::Public, obj@)),
    {
        self.batch.new_public_sub_object(*obj);
    }

    /// Create a new internal sub-object.
    pub fn new_internal_sub_object(&mut self, obj: Box<Object>)
        ensures
            final(self)@ == old(self)@.push(CommandView::NewSubObj(Visibility::Internal, obj@)),
    {
        self.batch.new_internal_sub_object(*obj);
    }

    /// Create a new private sub-object.
    pub fn new_private_sub_object(&mut self, obj: Box<Object>)
        ensures
            final(self)@ == old(self)@.push(CommandView::NewSubObj(Visibility::Private, obj@)),
    {
        self.batch.new_private_sub_object(*obj);
    }

    /// Delete the private sub-object carrying this object's name.
    pub fn remove_private_sub_object(&mut self, obj: Box<Object>)
        ensures
            final(self)@ == old(self)@.push(CommandView::RemSubObj(Visibility::Private, obj@)),
    {
        self.batch.remove_private_sub_object(*obj);
    }

    /// Delete the internal sub-object carrying this object's name.
    pub fn remove_internal_sub_object(&mut self, obj: Box<Object>)
        ensures
            final(self)@ == old(self)@.push(CommandView::RemSubObj(Visibility::Internal, obj@)),
    {
        self.batch.remove_internal_sub_object(*obj);
    }

    /// Delete the public sub-object carrying this object's name.
    pub fn remove_public_sub_object(&mut self, obj: Box<Object>)
        ensures
            final(self)@ == old(self)@.push(CommandView::RemSubObj(Visibility::Public, obj@)),
    {
        self.batch.remove_public_sub_object(*obj);
    }

    /// Change the visibility of the sub-object carrying this object's name.
    /// If the sub-object's current visibility is not passed, the tiers are
    /// searched in public, internal, private order.
    pub fn change_sub_object_access(
        &mut self,
        obj: Box<Object>,
        newvis: Visibility,
        oldvis: Option<Visibility>,
    )
        ensures
            final(self)@ == old(self)@.push(CommandView::ChgSubObjVis(obj@, newvis, oldvis)),
    {
        self.batch.change_sub_object_access(*obj, newvis, oldvis);
    }

    /// Mark the target object as an implementer of this interface.
    pub fn implement_interface(&mut self, i: Box<Interface>)
        ensures
            final(self)@ == old(self)@.push(CommandView::ImplInt(i@)),
    {
        self.batch.implement_interface(*i);
    }

    /// Record that the target object no longer implements this interface.
    pub fn unimplement_interface(&mut self, i: Box<Interface>)
        ensures
            final(self)@ == old(self)@.push(CommandView::UnimplInt(i@)),
    {
        self.batch.unimplement_interface(*i);
    }

    /// Apply the recorded commands to the object, in order, as one atomic
    /// step: on the first command that fails validation the object is left
    /// exactly as it was and that command's error is returned; only if every
    /// command validates does the object change, to the state the command
    /// sequence prescribes.
    pub fn apply_to_object(self, obj: &mut Object) -> (r: Result<(), TransactionError>)
        requires
            old(obj)@.wf(),
            old(obj)@.next_id + self@.len() <= u32::MAX as nat,
        ensures
            match run(old(obj)@, self@) {
                Ok(t) => r is Ok && final(obj)@ == t && final(obj)@.wf(),
                Err(e) => r == Err::<(), TransactionError>(e) && *final(obj) == *old(obj),
            },
    {
        self.batch.apply_to_object(obj)
    }
}

} // verus!
