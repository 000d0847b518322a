use std::rc::Rc;

use ccs::Interface;
use ccs::InterfaceDependency;
use ccs::InterfaceVersion;
use ccs::Object;
use ccs::ObjectTransaction;
use ccs::ObjectVector;
use ccs::Package;
use ccs::Path;
use ccs::Service;
use ccs::TransactionError;
use ccs::Visibility;

fn ver(major: u32, minor: u32) -> InterfaceVersion {
    InterfaceVersion::new(major, minor, 0)
}

fn svc(name: &str) -> Service {
    Service::new(name.to_string(), ver(1, 0))
}

fn pack(names: &[&str]) -> Rc<Package> {
    let mut p = Path::new(names[0].to_string());
    for n in &names[1..] {
        p = Path::new_in_path(n.to_string(), Rc::new(p));
    }
    Rc::new(Package::new(p))
}

fn iface(name: &str, v: InterfaceVersion, services: &[&str], deps: &[&Rc<Interface>]) -> Interface {
    let mut dep = InterfaceDependency::new();
    for d in deps {
        dep.add(d);
    }
    let serv: Vec<Service> = services.iter().map(|s| svc(s)).collect();
    Interface::new(name.to_string(), v, pack(&["org", "vendor", "lib"]), serv, dep)
}

fn service_names(list: &[Service]) -> Vec<String> {
    list.iter().map(|s| s.name().clone()).collect()
}

#[test]
fn add_and_list_services_per_tier() {
    let mut o = Object::new("host".to_string());
    let mut t = ObjectTransaction::new();
    t.add_public_service(svc("render"));
    t.add_internal_service(svc("cache"));
    t.add_private_service(svc("audit"));
    assert!(t.apply_to_object(&mut o).is_ok());
    assert_eq!(service_names(o.public_services()), ["render"]);
    assert_eq!(service_names(o.internal_services()), ["cache"]);
    assert_eq!(service_names(o.private_services()), ["audit"]);
    assert!(o.has_service_with_name(&"cache".to_string()));
    assert!(!o.has_service_with_name(&"missing".to_string()));
    assert_eq!(
        o.service_by_name(&"audit".to_string()).unwrap().name().as_str(),
        "audit"
    );
    assert!(o.service_by_name(&"missing".to_string()).is_none());
}

#[test]
fn duplicate_name_is_per_tier() {
    let mut o = Object::new("host".to_string());
    let mut t = ObjectTransaction::new();
    t.add_public_service(svc("render"));
    assert!(t.apply_to_object(&mut o).is_ok());

    let mut again = ObjectTransaction::new();
    again.add_public_service(svc("render"));
    assert_eq!(
        again.apply_to_object(&mut o),
        Err(TransactionError::DuplicateName)
    );

    let mut internal = ObjectTransaction::new();
    internal.add_internal_service(svc("render"));
    assert!(internal.apply_to_object(&mut o).is_ok());
    assert_eq!(service_names(o.public_services()), ["render"]);
    assert_eq!(service_names(o.internal_services()), ["render"]);
}

#[test]
fn failed_batch_leaves_the_object_untouched() {
    let mut o = Object::new("host".to_string());
    let mut setup = ObjectTransaction::new();
    setup.add_public_service(svc("render"));
    setup.new_public_sub_object(Object::new("child".to_string()));
    assert!(setup.apply_to_object(&mut o).is_ok());

    let before = o.duplicate();

    // One valid command followed by one that fails: nothing may change.
    let mut bad = ObjectTransaction::new();
    bad.add_public_service(svc("sound"));
    bad.add_public_service(svc("render"));
    assert_eq!(
        bad.apply_to_object(&mut o),
        Err(TransactionError::DuplicateName)
    );
    assert!(o == before);
    assert_eq!(service_names(o.public_services()), ["render"]);
}

#[test]
fn remove_service_and_not_found() {
    let mut o = Object::new("host".to_string());
    let mut t = ObjectTransaction::new();
    t.add_public_service(svc("render"));
    assert!(t.apply_to_object(&mut o).is_ok());

    let mut gone = ObjectTransaction::new();
    gone.remove_public_service(svc("render"));
    assert!(gone.apply_to_object(&mut o).is_ok());
    assert!(o.public_services().is_empty());

    let mut absent = ObjectTransaction::new();
    absent.remove_public_service(svc("render"));
    assert_eq!(
        absent.apply_to_object(&mut o),
        Err(TransactionError::NotFound)
    );
}

#[test]
fn change_service_visibility_moves_the_entry() {
    let mut o = Object::new("host".to_string());
    let mut t = ObjectTransaction::new();
    t.add_public_service(svc("render"));
    assert!(t.apply_to_object(&mut o).is_ok());

    let mut mv = ObjectTransaction::new();
    mv.change_service_access(svc("render"), Visibility::Internal, Some(Visibility::Public));
    assert!(mv.apply_to_object(&mut o).is_ok());
    assert!(o.public_services().is_empty());
    assert_eq!(service_names(o.internal_services()), ["render"]);
}

#[test]
fn change_service_visibility_searches_tiers_in_order() {
    // The same name may live in two tiers; without a stated source tier the
    // public entry moves, because the search runs public, internal, private.
    let mut o = Object::new("host".to_string());
    let mut t = ObjectTransaction::new();
    t.add_public_service(Service::new("render".to_string(), ver(1, 0)));
    t.add_internal_service(Service::new("render".to_string(), ver(2, 0)));
    assert!(t.apply_to_object(&mut o).is_ok());

    let mut mv = ObjectTransaction::new();
    mv.change_service_access(svc("render"), Visibility::Private, None);
    assert!(mv.apply_to_object(&mut o).is_ok());
    assert!(o.public_services().is_empty());
    assert_eq!(service_names(o.internal_services()), ["render"]);
    assert_eq!(service_names(o.private_services()), ["render"]);
    assert_eq!(o.private_services()[0].version().major(), 1);
}

#[test]
fn change_service_visibility_errors() {
    let mut o = Object::new("host".to_string());
    let mut t = ObjectTransaction::new();
    t.add_public_service(svc("render"));
    t.add_internal_service(svc("sound"));
    assert!(t.apply_to_object(&mut o).is_ok());

    let mut same = ObjectTransaction::new();
    same.change_service_access(svc("render"), Visibility::Public, Some(Visibility::Public));
    assert_eq!(
        same.apply_to_object(&mut o),
        Err(TransactionError::AlreadyAtVisibility)
    );

    let mut missing = ObjectTransaction::new();
    missing.change_service_access(svc("ghost"), Visibility::Private, None);
    assert_eq!(
        missing.apply_to_object(&mut o),
        Err(TransactionError::NotFound)
    );

    // Moving would collide with a name already in the target tier.
    let mut collide = ObjectTransaction::new();
    collide.add_public_service(svc("sound"));
    assert!(collide.apply_to_object(&mut o).is_ok());
    let mut mv = ObjectTransaction::new();
    mv.change_service_access(svc("sound"), Visibility::Internal, Some(Visibility::Public));
    assert_eq!(
        mv.apply_to_object(&mut o),
        Err(TransactionError::DuplicateName)
    );
}

#[test]
fn sub_objects_get_monotonic_ids() {
    let mut o = Object::new("host".to_string());
    let mut t = ObjectTransaction::new();
    t.new_public_sub_object(Object::new("alpha".to_string()));
    t.new_internal_sub_object(Object::new("beta".to_string()));
    t.new_public_sub_object(Object::new("gamma".to_string()));
    assert!(t.apply_to_object(&mut o).is_ok());

    assert_eq!(o.public_sub_objects().len(), 2);
    assert_eq!(o.internal_sub_objects().len(), 1);
    assert_eq!(o.public_sub_objects()[0].id(), 0);
    assert_eq!(o.internal_sub_objects()[0].id(), 1);
    assert_eq!(o.public_sub_objects()[1].id(), 2);
}

#[test]
fn sub_object_add_remove_and_move() {
    let mut o = Object::new("host".to_string());
    let mut t = ObjectTransaction::new();
    t.new_public_sub_object(Object::new("alpha".to_string()));
    t.new_public_sub_object(Object::new("beta".to_string()));
    assert!(t.apply_to_object(&mut o).is_ok());

    let mut dup = ObjectTransaction::new();
    dup.new_public_sub_object(Object::new("alpha".to_string()));
    assert_eq!(
        dup.apply_to_object(&mut o),
        Err(TransactionError::DuplicateName)
    );

    let mut mv = ObjectTransaction::new();
    mv.change_sub_object_access(Object::new("alpha".to_string()), Visibility::Private, None);
    assert!(mv.apply_to_object(&mut o).is_ok());
    assert_eq!(o.public_sub_objects().len(), 1);
    assert_eq!(o.private_sub_objects().len(), 1);
    assert_eq!(o.private_sub_objects()[0].id(), 0);

    let mut rm = ObjectTransaction::new();
    rm.remove_private_sub_object(Object::new("alpha".to_string()));
    assert!(rm.apply_to_object(&mut o).is_ok());
    assert!(o.private_sub_objects().is_empty());

    let mut rm2 = ObjectTransaction::new();
    rm2.remove_internal_sub_object(Object::new("beta".to_string()));
    assert_eq!(
        rm2.apply_to_object(&mut o),
        Err(TransactionError::NotFound)
    );
}

#[test]
fn dependency_gating_on_implement() {
    let a = Rc::new(iface("A", ver(1, 0), &["ping"], &[]));
    let b = iface("B", ver(1, 0), &[], &[&a]);

    // Implementing B alone fails: A is not implemented.
    let mut o = Object::new("host".to_string());
    let mut only_b = ObjectTransaction::new();
    only_b.implement_interface(b.duplicate());
    assert_eq!(
        only_b.apply_to_object(&mut o),
        Err(TransactionError::UnmetDependency)
    );

    // Provide the public service, then implement A and B in one batch.
    let mut t = ObjectTransaction::new();
    t.add_public_service(svc("ping"));
    t.implement_interface(a.duplicate());
    t.implement_interface(b);
    assert!(t.apply_to_object(&mut o).is_ok());
    assert_eq!(o.interfaces().len(), 2);
}

#[test]
fn missing_service_gates_implement() {
    let a = iface("A", ver(1, 0), &["ping"], &[]);
    let mut o = Object::new("host".to_string());
    let mut t = ObjectTransaction::new();
    t.implement_interface(a);
    assert_eq!(
        t.apply_to_object(&mut o),
        Err(TransactionError::MissingService)
    );
}

#[test]
fn mandated_service_must_be_public() {
    // The same service at the internal tier does not satisfy an interface.
    let a = iface("A", ver(1, 0), &["ping"], &[]);
    let mut o = Object::new("host".to_string());
    let mut t = ObjectTransaction::new();
    t.add_internal_service(svc("ping"));
    t.implement_interface(a);
    assert_eq!(
        t.apply_to_object(&mut o),
        Err(TransactionError::MissingService)
    );
}

#[test]
fn incompatible_version_gates_implement() {
    let a1 = iface("A", ver(1, 0), &[], &[]);
    let a2 = iface("A", ver(2, 0), &[], &[]);
    let mut o = Object::new("host".to_string());
    let mut t = ObjectTransaction::new();
    t.implement_interface(a1);
    assert!(t.apply_to_object(&mut o).is_ok());

    let mut t2 = ObjectTransaction::new();
    t2.implement_interface(a2);
    assert_eq!(
        t2.apply_to_object(&mut o),
        Err(TransactionError::IncompatibleVersion)
    );
}

#[test]
fn removal_gating_on_unimplement() {
    let a = Rc::new(iface("A", ver(1, 0), &["ping"], &[]));
    let b = Rc::new(iface("B", ver(1, 0), &[], &[&a]));

    let mut o = Object::new("host".to_string());
    let mut setup = ObjectTransaction::new();
    setup.add_public_service(svc("ping"));
    setup.implement_interface(a.as_ref().duplicate());
    setup.implement_interface(b.as_ref().duplicate());
    assert!(setup.apply_to_object(&mut o).is_ok());

    // Removing A while B depends on it fails, and nothing changes.
    let before = o.duplicate();
    let mut rm_a = ObjectTransaction::new();
    rm_a.unimplement_interface(a.as_ref().duplicate());
    assert_eq!(
        rm_a.apply_to_object(&mut o),
        Err(TransactionError::DependentInterfaceActive)
    );
    assert!(o == before);

    // Removing B first and then A, in one batch, succeeds.
    let mut rm_both = ObjectTransaction::new();
    rm_both.unimplement_interface(b.as_ref().duplicate());
    rm_both.unimplement_interface(a.as_ref().duplicate());
    assert!(rm_both.apply_to_object(&mut o).is_ok());
    assert!(o.interfaces().is_empty());
}

#[test]
fn unimplement_absent_interface_is_not_found() {
    let a = iface("A", ver(1, 0), &[], &[]);
    let mut o = Object::new("host".to_string());
    let mut t = ObjectTransaction::new();
    t.unimplement_interface(a);
    assert_eq!(t.apply_to_object(&mut o), Err(TransactionError::NotFound));
}

#[test]
fn implementing_twice_stores_one_entry() {
    let a = iface("A", ver(1, 0), &[], &[]);
    let mut o = Object::new("host".to_string());
    let mut t = ObjectTransaction::new();
    t.implement_interface(a.duplicate());
    t.implement_interface(a);
    assert!(t.apply_to_object(&mut o).is_ok());
    assert_eq!(o.interfaces().len(), 1);
}

#[test]
fn object_vector_holds_object_and_id() {
    let ov = ObjectVector::new(Object::new("alpha".to_string()), 7);
    assert_eq!(ov.id(), 7);
    let (obj, id) = ov.split_vector();
    assert_eq!(obj.name(), "alpha");
    assert_eq!(id, 7);
}

#[test]
fn object_duplicate_is_field_for_field() {
    let mut o = Object::new("host".to_string());
    let mut t = ObjectTransaction::new();
    t.add_public_service(svc("render"));
    t.new_private_sub_object(Object::new("inner".to_string()));
    t.implement_interface(iface("A", ver(1, 0), &["render"], &[]));
    assert!(t.apply_to_object(&mut o).is_ok());
    let copy = o.duplicate();
    assert!(copy == o);
}

#[test]
fn empty_transaction_changes_nothing() {
    let mut o = Object::new("host".to_string());
    let before = o.duplicate();
    let t = ObjectTransaction::new();
    assert!(t.apply_to_object(&mut o).is_ok());
    assert!(o == before);
}

#[test]
fn change_sub_object_visibility_errors() {
    let mut o = Object::new("host".to_string());
    let mut t = ObjectTransaction::new();
    t.new_public_sub_object(Object::new("alpha".to_string()));
    assert!(t.apply_to_object(&mut o).is_ok());

    let mut same = ObjectTransaction::new();
    same.change_sub_object_access(
        Object::new("alpha".to_string()),
        Visibility::Public,
        Some(Visibility::Public),
    );
    assert_eq!(
        same.apply_to_object(&mut o),
        Err(TransactionError::AlreadyAtVisibility)
    );

    let mut wrong_tier = ObjectTransaction::new();
    wrong_tier.change_sub_object_access(
        Object::new("alpha".to_string()),
        Visibility::Private,
        Some(Visibility::Internal),
    );
    assert_eq!(
        wrong_tier.apply_to_object(&mut o),
        Err(TransactionError::NotFound)
    );
}

#[test]
fn batch_may_add_service_and_implement_in_one_step() {
    // A single transaction adds the mandated service and implements the
    // interface that requires it: validation folds in earlier commands.
    let a = iface("A", ver(1, 0), &["ping"], &[]);
    let mut o = Object::new("host".to_string());
    let mut t = ObjectTransaction::new();
    t.add_public_service(svc("ping"));
    t.implement_interface(a);
    assert!(t.apply_to_object(&mut o).is_ok());
    assert_eq!(o.interfaces().len(), 1);
    assert_eq!(service_names(o.public_services()), ["ping"]);
}

#[test]
fn default_transaction_is_empty() {
    let mut o = Object::new("host".to_string());
    let t = ObjectTransaction::default();
    assert!(t.apply_to_object(&mut o).is_ok());
    assert!(o.public_services().is_empty());
}
