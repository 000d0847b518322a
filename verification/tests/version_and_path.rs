use std::cmp::Ordering;
use std::rc::Rc;

use ccs::InterfaceVersion;
use ccs::Path;

fn chain(names: &[&str]) -> Path {
    let mut p = Path::new(names[0].to_string());
    for n in &names[1..] {
        p = Path::new_in_path(n.to_string(), Rc::new(p));
    }
    p
}

#[test]
fn compatibility_same_major_by_minor() {
    let v23 = InterfaceVersion::new(2, 3, 0);
    assert!(v23.is_compatible(&InterfaceVersion::new(2, 1, 0)));
    assert!(v23.is_compatible(&InterfaceVersion::new(2, 3, 9)));
    assert!(!v23.is_compatible(&InterfaceVersion::new(2, 4, 0)));
    assert!(!v23.is_compatible(&InterfaceVersion::new(1, 3, 0)));
    assert!(!v23.is_compatible(&InterfaceVersion::new(3, 3, 0)));
}

#[test]
fn compatibility_ignores_patch() {
    let a = InterfaceVersion::new(1, 2, 7);
    let b = InterfaceVersion::new(1, 2, 99);
    assert!(a.is_compatible(&b));
    assert!(b.is_compatible(&a));
}

#[test]
fn version_accessors() {
    let v = InterfaceVersion::new(4, 5, 6);
    assert_eq!(v.major(), 4);
    assert_eq!(v.minor(), 5);
    assert_eq!(v.patch(), 6);
}

#[test]
fn version_ordering() {
    let a = InterfaceVersion::new(1, 2, 3);
    assert_eq!(a.compare(&InterfaceVersion::new(1, 2, 3)), Ordering::Equal);
    assert_eq!(a.compare(&InterfaceVersion::new(2, 0, 0)), Ordering::Less);
    assert_eq!(a.compare(&InterfaceVersion::new(1, 1, 9)), Ordering::Greater);
    assert_eq!(a.compare(&InterfaceVersion::new(1, 2, 4)), Ordering::Less);
}

#[test]
fn full_path_round_trip() {
    let p = chain(&["org", "vendor", "lib"]);
    assert_eq!(p.full_path("."), "org.vendor.lib");
}

#[test]
fn full_path_single_segment_has_no_delimiter() {
    let p = Path::new("root".to_string());
    assert_eq!(p.full_path("/"), "root");
}

#[test]
fn independently_built_chains_are_equal() {
    let a = chain(&["org", "vendor", "lib"]);
    let b = chain(&["org", "vendor", "lib"]);
    assert!(a.eq_path(&b));
    assert_eq!(a.compare(&b), Ordering::Equal);
    assert!(a == b);
}

#[test]
fn chains_with_different_names_are_unequal() {
    let a = chain(&["org", "vendor", "lib"]);
    let b = chain(&["org", "vendor", "lib2"]);
    let c = chain(&["org", "vendor"]);
    assert!(!a.eq_path(&b));
    assert!(!a.eq_path(&c));
}

#[test]
fn shorter_chain_sorts_before_longer() {
    let two = chain(&["org", "vendor"]);
    let three = chain(&["org", "vendor", "lib"]);
    assert_eq!(two.compare(&three), Ordering::Less);
    assert_eq!(three.compare(&two), Ordering::Greater);
}

#[test]
fn equal_length_chains_compare_from_the_root() {
    let a = chain(&["alpha", "zeta"]);
    let b = chain(&["beta", "alpha"]);
    assert_eq!(a.compare(&b), Ordering::Less);
    assert_eq!(b.compare(&a), Ordering::Greater);
}

#[test]
fn path_name_is_the_leaf_segment() {
    let p = chain(&["org", "vendor", "lib"]);
    assert_eq!(p.name().as_str(), "lib");
}

#[test]
fn path_iter_walks_leaf_to_root() {
    let p = chain(&["org", "vendor", "lib"]);
    let mut it = p.iter();
    assert_eq!(it.next().unwrap().name().as_str(), "lib");
    assert_eq!(it.next().unwrap().name().as_str(), "vendor");
    assert_eq!(it.next().unwrap().name().as_str(), "org");
    assert!(it.next().is_none());
}

#[test]
fn bi_iter_walks_both_ways() {
    let p = chain(&["org", "vendor", "lib"]);
    let mut it = p.bi_iter();
    assert_eq!(it.len(), 3);
    assert_eq!(it.next().unwrap().name().as_str(), "org");
    assert_eq!(it.next_back().unwrap().name().as_str(), "lib");
    assert_eq!(it.next().unwrap().name().as_str(), "vendor");
    assert!(it.next().is_none());
    assert!(it.next_back().is_none());
}

#[test]
fn duplicate_keeps_the_chain() {
    let p = chain(&["a", "b"]);
    let q = p.duplicate();
    assert!(p.eq_path(&q));
    assert_eq!(q.full_path("::"), "a::b");
}
