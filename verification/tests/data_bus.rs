use rip::data_bus::{BusRegistry, DataBus};
use rip::name_index::NameIndex;

#[test]
fn bus_new_does_nothing() {
    let unit: () = DataBus::new();
    assert_eq!(unit, ());
}

#[test]
fn bus_one_subscription_per_key_and_type() {
    let mut registry = BusRegistry::new();
    let mut bus = DataBus::default();
    assert_eq!(bus.add_subscriber(&mut registry, "a::x", 1), Some(0));
    assert_eq!(bus.add_subscriber(&mut registry, "a::x", 1), None);
    assert_eq!(bus.add_object_subscriber(&mut registry, "a::x", 1), None);
    assert_eq!(registry.len(), 1);
    assert!(bus.has_subscription("a::x", 1));
    assert!(!bus.has_subscription("a::x", 2));
    assert_eq!(bus.add_subscriber(&mut registry, "a::x", 2), Some(1));
    assert_eq!(registry.len(), 2);
}

#[test]
fn bus_delivers_in_subscription_order() {
    let mut registry = BusRegistry::new();
    let mut first = DataBus::default();
    let mut second = DataBus::default();
    assert_eq!(second.add_subscriber(&mut registry, "k", 3), Some(0));
    assert_eq!(first.add_object_subscriber(&mut registry, "k", 3), Some(1));
    assert_eq!(first.add_object_subscriber(&mut registry, "other", 3), Some(2));
    assert_eq!(first.send(&registry, "k", 3), vec![0, 1]);
    assert_eq!(second.send(&registry, "other", 3), vec![2]);
    assert_eq!(second.send(&registry, "k", 4), Vec::<u64>::new());
    assert_eq!(first.subscription_ids(), vec![1, 2]);
}

#[test]
fn bus_release_keeps_other_subscriptions() {
    let mut registry = BusRegistry::new();
    let mut first = DataBus::default();
    let mut second = DataBus::default();
    first.add_subscriber(&mut registry, "k", 3);
    second.add_subscriber(&mut registry, "k", 3);
    first.add_subscriber(&mut registry, "j", 3);
    first.release(&mut registry);
    assert_eq!(registry.len(), 1);
    assert_eq!(second.send(&registry, "k", 3), vec![1]);
    assert_eq!(second.send(&registry, "j", 3), Vec::<u64>::new());
    let mut third = DataBus::default();
    assert_eq!(third.add_subscriber(&mut registry, "k", 3), Some(3));
    assert_eq!(third.send(&registry, "k", 3), vec![1, 3]);
}

#[test]
fn name_index_read_after_write() {
    let mut index = NameIndex::new();
    index.insert("a", 1);
    index.insert("b", 2);
    index.insert("a", 3);
    assert_eq!(index.get("a"), Some(3));
    assert_eq!(index.get("b"), Some(2));
    assert_eq!(index.get("c"), None);
    assert_eq!(index.len(), 2);
}

#[test]
fn bus_registry_stays_consistent_over_a_call_sequence() {
    let mut registry = BusRegistry::new();
    let mut a = DataBus::default();
    let mut b = DataBus::default();
    assert_eq!(a.add_subscriber(&mut registry, "k", 1), Some(0));
    assert_eq!(b.add_object_subscriber(&mut registry, "k", 1), Some(1));
    assert_eq!(a.add_object_subscriber(&mut registry, "k", 1), None);
    assert_eq!(a.add_subscriber(&mut registry, "k", 2), Some(2));
    b.release(&mut registry);
    let mut c = DataBus::default();
    assert_eq!(c.add_subscriber(&mut registry, "k", 1), Some(3));
    assert_eq!(c.add_subscriber(&mut registry, "k", 1), None);
    assert_eq!(registry.len(), 3);
    assert_eq!(a.send(&registry, "k", 1), vec![0, 3]);
    assert_eq!(a.send(&registry, "k", 2), vec![2]);
    a.release(&mut registry);
    assert_eq!(registry.len(), 1);
    assert_eq!(c.send(&registry, "k", 1), vec![3]);
    assert_eq!(c.subscription_ids(), vec![3]);
}
