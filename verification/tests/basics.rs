use rip::data_bus::{BusRegistry, DataBus};

#[test]
fn lib_it_works() {}

#[test]
fn bus_delivers_to_subscriber() {
    let mut registry = BusRegistry::new();
    let mut bus = DataBus::default();
    let id = bus.add_object_subscriber(&mut registry, "node::mode", 2);
    assert_eq!(id, Some(0));
    assert_eq!(bus.send(&registry, "node::mode", 2), vec![0]);
    assert_eq!(bus.send(&registry, "node::mode", 3), Vec::<u64>::new());
}
