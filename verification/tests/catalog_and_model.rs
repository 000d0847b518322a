use std::cmp::Ordering;
use std::rc::Rc;

use ccs::Interface;
use ccs::InterfaceDependency;
use ccs::InterfaceHierarchy;
use ccs::InterfaceVersion;
use ccs::Object;
use ccs::Package;
use ccs::Path;
use ccs::Service;
use ccs::ServiceArch;
use ccs::Transaction;
use ccs::TransactionError;
use ccs::Visibility;

fn ver(major: u32, minor: u32) -> InterfaceVersion {
    InterfaceVersion::new(major, minor, 0)
}

fn chain(names: &[&str]) -> Path {
    let mut p = Path::new(names[0].to_string());
    for n in &names[1..] {
        p = Path::new_in_path(n.to_string(), Rc::new(p));
    }
    p
}

fn iface_at(path: &[&str], name: &str, v: InterfaceVersion) -> Rc<Interface> {
    Rc::new(Interface::new(
        name.to_string(),
        v,
        Rc::new(Package::new(chain(path))),
        Vec::new(),
        InterfaceDependency::new(),
    ))
}

#[test]
fn register_and_resolve_by_full_path() {
    let mut cat = InterfaceHierarchy::new("".to_string());
    let i = iface_at(&["org", "vendor", "lib"], "Render", ver(2, 3));
    cat.register(&i);

    let hit = cat.resolve(&chain(&["org", "vendor", "lib"]), &"Render".to_string(), &ver(2, 1));
    assert!(hit.is_some());
    assert_eq!(hit.unwrap().name().as_str(), "Render");

    // An exact version also resolves.
    assert!(cat
        .resolve(&chain(&["org", "vendor", "lib"]), &"Render".to_string(), &ver(2, 3))
        .is_some());

    // A newer required minor, or another major, does not.
    assert!(cat
        .resolve(&chain(&["org", "vendor", "lib"]), &"Render".to_string(), &ver(2, 4))
        .is_none());
    assert!(cat
        .resolve(&chain(&["org", "vendor", "lib"]), &"Render".to_string(), &ver(1, 0))
        .is_none());

    // A wrong name or a missing path segment resolves to nothing.
    assert!(cat
        .resolve(&chain(&["org", "vendor", "lib"]), &"Sound".to_string(), &ver(2, 1))
        .is_none());
    assert!(cat
        .resolve(&chain(&["org", "vendor"]), &"Render".to_string(), &ver(2, 1))
        .is_none());
    assert!(cat
        .resolve(&chain(&["org", "other", "lib"]), &"Render".to_string(), &ver(2, 1))
        .is_none());
}

#[test]
fn register_builds_segments_once_and_is_idempotent() {
    let mut cat = InterfaceHierarchy::new("".to_string());
    let i = iface_at(&["org", "vendor", "lib"], "Render", ver(1, 0));
    let j = iface_at(&["org", "vendor", "net"], "Socket", ver(1, 0));
    cat.register(&i);
    cat.register(&i);
    cat.register(&j);

    assert_eq!(cat.sub_packages().len(), 1);
    let org = &cat.sub_packages()[0];
    assert_eq!(org.current_package().as_str(), "org");
    assert_eq!(org.sub_packages().len(), 1);
    let vendor = &org.sub_packages()[0];
    assert_eq!(vendor.sub_packages().len(), 2);
    let lib = &vendor.sub_packages()[0];
    assert_eq!(lib.current_package().as_str(), "lib");
    assert_eq!(lib.interfaces().len(), 1);
    assert!(vendor.interfaces().is_empty());
}

#[test]
fn resolve_prefers_the_first_registered_match() {
    let mut cat = InterfaceHierarchy::new("".to_string());
    let old = iface_at(&["org"], "Render", ver(1, 5));
    let new = iface_at(&["org"], "Render", ver(1, 9));
    cat.register(&old);
    cat.register(&new);
    let hit = cat.resolve(&chain(&["org"]), &"Render".to_string(), &ver(1, 7)).unwrap();
    assert_eq!(hit.version().minor(), 9);
    let early = cat.resolve(&chain(&["org"]), &"Render".to_string(), &ver(1, 2)).unwrap();
    assert_eq!(early.version().minor(), 5);
}

#[test]
fn interface_accessors_and_identity() {
    let dep_target = iface_at(&["org"], "Base", ver(1, 0));
    let mut dep = InterfaceDependency::new();
    dep.add(&dep_target);
    dep.add(&dep_target);
    assert_eq!(dep.tree().len(), 1);
    assert!(dep.includes(&dep_target));

    let pack = Rc::new(Package::new(chain(&["org", "vendor"])));
    let i = Interface::new(
        "Render".to_string(),
        ver(2, 1),
        pack,
        vec![Service::new("draw".to_string(), ver(1, 0))],
        dep,
    );
    assert_eq!(i.name().as_str(), "Render");
    assert_eq!(i.version().major(), 2);
    assert_eq!(i.package().path().full_path("/"), "org/vendor");
    assert_eq!(i.services().len(), 1);
    assert_eq!(i.dependency().tree().len(), 1);

    let same = i.duplicate();
    assert!(i.eq_interface(&same));
    assert_eq!(i.compare(&same), Ordering::Equal);

    let other = Interface::new(
        "Render".to_string(),
        ver(2, 2),
        Rc::new(Package::new(chain(&["org", "vendor"]))),
        Vec::new(),
        InterfaceDependency::new(),
    );
    assert!(!i.eq_interface(&other));
    assert_eq!(i.compare(&other), Ordering::Less);
}

#[test]
fn interfaces_order_by_name_first() {
    let a = iface_at(&["org"], "Alpha", ver(9, 9));
    let b = iface_at(&["org"], "Beta", ver(1, 0));
    assert_eq!(a.compare(&b), Ordering::Less);
    assert_eq!(b.compare(&a), Ordering::Greater);
}

#[test]
fn service_arch_hands_out_the_descriptor() {
    let s = Service::new("render".to_string(), ver(1, 2));
    assert_eq!(s.service().name().as_str(), "render");
    assert_eq!(s.version().minor(), 2);
    let copy = s.duplicate();
    assert!(s.eq_service(&copy));
    assert!(!s.eq_service(&Service::new("render".to_string(), ver(1, 3))));
}

#[test]
fn boxed_transaction_applies_atomically() {
    let mut o = Object::new("host".to_string());
    let mut t = Transaction::new();
    t.add_public_service(Box::new(Service::new("render".to_string(), ver(1, 0))));
    t.add_service(
        Box::new(Service::new("cache".to_string(), ver(1, 0))),
        Visibility::Private,
    );
    assert!(t.apply_to_object(&mut o).is_ok());
    assert_eq!(o.public_services().len(), 1);
    assert_eq!(o.private_services().len(), 1);

    let before = o.duplicate();
    let mut bad = Transaction::new();
    bad.new_public_sub_object(Box::new(Object::new("child".to_string())));
    bad.remove_internal_service(Box::new(Service::new("render".to_string(), ver(1, 0))));
    assert_eq!(bad.apply_to_object(&mut o), Err(TransactionError::NotFound));
    assert!(o == before);

    let mut mv = Transaction::new();
    mv.change_service_access(
        Box::new(Service::new("cache".to_string(), ver(1, 0))),
        Visibility::Internal,
        None,
    );
    mv.new_internal_sub_object(Box::new(Object::new("child".to_string())));
    mv.change_sub_object_access(
        Box::new(Object::new("child".to_string())),
        Visibility::Public,
        Some(Visibility::Internal),
    );
    mv.implement_interface(Box::new(
        iface_at(&["org"], "Holder", ver(1, 0)).as_ref().duplicate(),
    ));
    mv.unimplement_interface(Box::new(
        iface_at(&["org"], "Holder", ver(1, 0)).as_ref().duplicate(),
    ));
    assert!(mv.apply_to_object(&mut o).is_ok());
    assert_eq!(o.internal_services().len(), 1);
    assert_eq!(o.public_sub_objects().len(), 1);
    assert!(o.interfaces().is_empty());

    let mut rest = Transaction::new();
    rest.add_internal_service(Box::new(Service::new("a".to_string(), ver(1, 0))));
    rest.add_private_service(Box::new(Service::new("b".to_string(), ver(1, 0))));
    rest.remove_public_service(Box::new(Service::new("render".to_string(), ver(1, 0))));
    rest.remove_private_service(Box::new(Service::new("b".to_string(), ver(1, 0))));
    rest.new_private_sub_object(Box::new(Object::new("p".to_string())));
    rest.remove_private_sub_object(Box::new(Object::new("p".to_string())));
    rest.remove_public_sub_object(Box::new(Object::new("child".to_string())));
    assert!(rest.apply_to_object(&mut o).is_ok());
    assert_eq!(o.internal_services().len(), 2);
    assert!(o.public_services().is_empty());
    assert!(o.public_sub_objects().is_empty());
}
