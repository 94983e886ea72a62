use mnemos_core::registry::{Registry, RegistryError};

const SERIAL_PORT_KEY: u64 = 10;
const DISPLAY_KEY: u64 = 11;

#[test]
fn registration_is_create_once() {
    let mut reg: Registry<String> = Registry::new();
    assert_eq!(reg.len(), 0);

    reg.register(SERIAL_PORT_KEY, String::from("serial")).unwrap();
    assert_eq!(reg.lookup(SERIAL_PORT_KEY).unwrap(), "serial");

    // The key is occupied: the second registration is refused and the
    // existing entry is untouched.
    assert_eq!(
        reg.register(SERIAL_PORT_KEY, String::from("impostor")),
        Err(RegistryError::KeyOccupied)
    );
    assert_eq!(reg.lookup(SERIAL_PORT_KEY).unwrap(), "serial");
    assert_eq!(reg.len(), 1);
}

#[test]
fn missing_services_are_reported() {
    let mut reg: Registry<u32> = Registry::new();
    assert_eq!(reg.lookup(DISPLAY_KEY), Err(RegistryError::NoSuchService));
    reg.register(DISPLAY_KEY, 77).unwrap();
    assert_eq!(reg.lookup(DISPLAY_KEY), Ok(&77));
}

#[test]
fn unrelated_registrations_do_not_disturb_lookups() {
    let mut reg: Registry<&'static str> = Registry::new();
    reg.register(1, "one").unwrap();
    reg.register(2, "two").unwrap();
    reg.register(3, "three").unwrap();
    assert_eq!(reg.len(), 3);
    assert_eq!(reg.lookup(1), Ok(&"one"));
    assert_eq!(reg.lookup(2), Ok(&"two"));
    assert_eq!(reg.lookup(3), Ok(&"three"));
    assert_eq!(reg.lookup(4), Err(RegistryError::NoSuchService));
}
