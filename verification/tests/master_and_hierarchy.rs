use std::rc::Rc;

use ccs::ImplementerLoader;
use ccs::Interface;
use ccs::InterfaceDependency;
use ccs::InterfaceLoader;
use ccs::InterfaceVersion;
use ccs::Master;
use ccs::Object;
use ccs::ObjectHierarchy;
use ccs::Package;
use ccs::Path;
use ccs::Service;
use ccs::Transaction;
use ccs::TransactionError;

fn ver(major: u32, minor: u32) -> InterfaceVersion {
    InterfaceVersion::new(major, minor, 0)
}

fn svc(name: &str) -> Service {
    Service::new(name.to_string(), ver(1, 0))
}

struct FixedLoader {
    stock: Rc<Interface>,
}

impl InterfaceLoader for FixedLoader {
    fn find_interface(&mut self, query: &String) -> Vec<Rc<Interface>> {
        if self.stock.name() == query {
            vec![self.stock.clone()]
        } else {
            Vec::new()
        }
    }

    fn find_package(&mut self, _query: &String) -> Vec<Rc<Package>> {
        vec![self.stock.package().clone()]
    }
}

struct EmptyImplementers;

impl ImplementerLoader for EmptyImplementers {
    fn find_implementer(&mut self, _interface: &Interface) -> Vec<Object> {
        Vec::new()
    }
}

#[test]
fn hierarchy_exposes_the_current_level() {
    let mut o = Object::new("root".to_string());
    let mut t = Transaction::new();
    t.add_public_service(Box::new(svc("render")));
    t.add_internal_service(Box::new(svc("cache")));
    t.add_private_service(Box::new(svc("audit")));
    t.new_public_sub_object(Box::new(Object::new("a".to_string())));
    t.new_internal_sub_object(Box::new(Object::new("b".to_string())));
    t.new_private_sub_object(Box::new(Object::new("c".to_string())));
    assert!(t.apply_to_object(&mut o).is_ok());

    let h = ObjectHierarchy::new(o);
    assert_eq!(h.current_object().name(), "root");
    assert_eq!(h.public_services().len(), 1);
    assert_eq!(h.internal_services().len(), 1);
    assert_eq!(h.private_services().len(), 1);
    assert_eq!(h.public_sub_objects().len(), 1);
    assert_eq!(h.internal_sub_objects().len(), 1);
    assert_eq!(h.private_sub_objects().len(), 1);
}

#[test]
fn master_forwards_transactions_atomically() {
    let mut m = Master::new("net".to_string());
    let mut t = Transaction::new();
    t.add_public_service(Box::new(svc("render")));
    assert!(m.apply_transaction(t).is_ok());
    assert_eq!(m.objects().current_object().name(), "net");
    assert_eq!(m.objects().public_services().len(), 1);

    let mut bad = Transaction::new();
    bad.add_public_service(Box::new(svc("sound")));
    bad.add_public_service(Box::new(svc("render")));
    assert_eq!(
        m.apply_transaction(bad),
        Err(TransactionError::DuplicateName)
    );
    assert_eq!(m.objects().public_services().len(), 1);
}

#[test]
fn master_gives_mutable_access() {
    let mut m = Master::new("net".to_string());
    let mut t = Transaction::new();
    t.add_internal_service(Box::new(svc("cache")));
    assert!(m.apply_transaction(t).is_ok());

    {
        let root = m.make_object_mut();
        assert_eq!(root.name(), "net");
    }
    {
        let s = m.make_service_mut(&"cache".to_string());
        assert_eq!(s.name().as_str(), "cache");
        *s = Service::new("cache".to_string(), ver(2, 0));
    }
    assert_eq!(
        m.objects().internal_services()[0].version().major(),
        2
    );

    let pack = Rc::new(Package::new(Path::new("org".to_string())));
    let i = Rc::new(Interface::new(
        "Render".to_string(),
        ver(1, 0),
        pack,
        Vec::new(),
        InterfaceDependency::new(),
    ));
    m.ints.register(&i);
    assert_eq!(m.interfaces().sub_packages().len(), 1);
    assert!(m
        .interfaces()
        .resolve(&Path::new("org".to_string()), &"Render".to_string(), &ver(1, 0))
        .is_some());
}

#[test]
fn loaders_hand_back_untrusted_candidates() {
    let pack = Rc::new(Package::new(Path::new("org".to_string())));
    let stock = Rc::new(Interface::new(
        "Render".to_string(),
        ver(1, 0),
        pack,
        vec![svc("draw")],
        InterfaceDependency::new(),
    ));
    let mut loader = FixedLoader { stock };
    assert_eq!(loader.find_interface(&"Render".to_string()).len(), 1);
    assert!(loader.find_interface(&"Sound".to_string()).is_empty());
    assert_eq!(loader.find_package(&"org".to_string()).len(), 1);

    let mut imps = EmptyImplementers;
    let candidate = &loader.find_interface(&"Render".to_string())[0];
    assert!(imps.find_implementer(candidate).is_empty());

    // A loader's claim only enters an object through a validated
    // transaction; here the mandated service is missing, so it is refused.
    let mut o = Object::new("host".to_string());
    let mut t = Transaction::new();
    t.implement_interface(Box::new(candidate.as_ref().duplicate()));
    assert_eq!(
        t.apply_to_object(&mut o),
        Err(TransactionError::MissingService)
    );
}
