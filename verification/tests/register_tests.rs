use message_io::register::ResourceRegister;
use message_io::resource_id::{ResourceId, ResourceIdGenerator, ResourceType};

#[test]
fn ids_packed_and_unpacked() {
    let id = ResourceId::new(7, ResourceType::Remote, 5);
    assert_eq!(id.raw(), 7 * 0x1000000 + 0x800000 + 5);
    let back = ResourceId::from_raw(id.raw());
    assert_eq!(back, id);
    let local = ResourceId::new(7, ResourceType::Local, 5);
    assert_eq!(local.raw(), 7 * 0x1000000 + 5);
    assert_ne!(local, id);
}

#[test]
fn generator_serials_grow() {
    let mut generator = ResourceIdGenerator::new(2, ResourceType::Local);
    let a = generator.generate();
    let b = generator.generate();
    assert_eq!(a.serial(), 0);
    assert_eq!(b.serial(), 1);
    assert_ne!(a, b);
}

#[test]
fn register_add_get_remove() {
    let mut register: ResourceRegister<&str> = ResourceRegister::new(3, ResourceType::Remote);
    let a = register.add("first");
    let b = register.add("second");
    assert_ne!(a, b);
    assert_eq!(register.len(), 2);
    assert_eq!(register.get(a), Some(&"first"));
    assert_eq!(register.get(b), Some(&"second"));
    assert_eq!(register.remove(a), Some("first"));
    assert_eq!(register.get(a), None);
    assert_eq!(register.remove(a), None);
    assert_eq!(register.len(), 1);
}

#[test]
fn freed_ids_are_not_reissued() {
    let mut register: ResourceRegister<u32> = ResourceRegister::new(0, ResourceType::Remote);
    let a = register.add(10);
    register.remove(a);
    let c = register.add(30);
    // the serial only grows, so the freed id does not come back
    assert_ne!(a, c);
    assert_eq!(c.serial(), 1);
}
