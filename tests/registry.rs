use smithay::registry::{Registry, UserData};

#[test]
fn objects_belong_to_clients() {
    let mut reg = Registry::new();
    let a = reg.add_client();
    let b = reg.add_client();
    assert_eq!((a, b), (0, 1));
    assert_eq!(reg.client_count(), 2);
    let x = reg.create(a, 3, UserData::Plain);
    let y = reg.create(a, 5, UserData::Plain);
    let z = reg.create(b, 1, UserData::Plain);
    assert_eq!((x, y, z), (0, 1, 2));
    assert_eq!(reg.len(), 3);
    assert!(reg.same_client(x, y));
    assert!(!reg.same_client(x, z));
    assert!(!reg.same_client(x, 99));
    assert_eq!(reg.client_of(z), Some(b));
    assert_eq!(reg.client_of(99), None);
    assert_eq!(reg.version(y), 5);
    assert_eq!(reg.version(99), 0);
    assert!(reg.is_owned_by(y, a));
    assert!(!reg.is_owned_by(z, a));
}

#[test]
fn destroy_and_disconnect() {
    let mut reg = Registry::new();
    let a = reg.add_client();
    let b = reg.add_client();
    let x = reg.create(a, 1, UserData::Plain);
    let y = reg.create(a, 1, UserData::Plain);
    let z = reg.create(b, 1, UserData::Plain);
    reg.destroy(x);
    assert!(!reg.is_alive(x));
    assert!(reg.is_alive(y));
    reg.destroy(42);
    reg.disconnect(a);
    assert!(!reg.client_is_alive(a));
    assert!(reg.client_is_alive(b));
    assert!(!reg.is_alive(y));
    assert!(reg.is_alive(z));
    // handles are never reused
    let w = reg.create(b, 1, UserData::Plain);
    assert_eq!(w, 3);
}

#[test]
fn roles_are_given_once() {
    let mut reg = Registry::new();
    let a = reg.add_client();
    let s = reg.create(a, 4, UserData::Plain);
    assert!(reg.give_role(s, "dnd_icon").is_ok());
    assert!(reg.give_role(s, "dnd_icon").is_err());
    assert!(reg.give_role(s, "cursor").is_err());
}

#[test]
fn user_data_can_be_replaced() {
    let mut reg = Registry::new();
    let a = reg.add_client();
    let s = reg.create(a, 4, UserData::Plain);
    assert_eq!(*reg.data_of(s), UserData::Plain);
    let d = reg.take_data(s);
    assert_eq!(d, UserData::Plain);
    reg.set_data(s, d);
    assert_eq!(*reg.data_of(s), UserData::Plain);
}
