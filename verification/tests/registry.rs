use emporium::error::Error;
use emporium::protocol::Command;
use emporium::registry::Registry;

#[test]
fn test_registry_basic() {
    let registry = Registry::new();

    assert_eq!(registry.list_extensions().len(), 0);
}

#[test]
fn register_send_and_receive() {
    let mut registry = Registry::new();
    let (tx, mut rx) = futures::channel::mpsc::unbounded::<Command>();
    registry.register("kv".to_string(), tx).unwrap();
    assert_eq!(registry.list_extensions(), vec!["kv".to_string()]);

    registry
        .send_message(&"kv".to_string(), Command::ListTools { correlation_id: Some("c".to_string()) })
        .unwrap();
    let got = rx.try_next().unwrap().unwrap();
    assert_eq!(got, Command::ListTools { correlation_id: Some("c".to_string()) });
}

#[test]
fn duplicate_registration_is_refused() {
    let mut registry = Registry::new();
    let (tx1, _rx1) = futures::channel::mpsc::unbounded::<Command>();
    let (tx2, _rx2) = futures::channel::mpsc::unbounded::<Command>();
    registry.register("kv".to_string(), tx1).unwrap();
    let r = registry.register("kv".to_string(), tx2);
    assert!(matches!(r, Err(Error::RegistryAlreadyExists(_))));
    assert_eq!(registry.list_extensions().len(), 1);
}

#[test]
fn send_to_unknown_id_is_not_found() {
    let registry = Registry::new();
    let r = registry.send_message(&"ghost".to_string(), Command::ListTools {
        correlation_id: None,
    });
    assert!(matches!(r, Err(Error::RegistryNotFound(_))));
}

#[test]
fn send_after_receiver_dropped_is_send_error() {
    let mut registry = Registry::new();
    let (tx, rx) = futures::channel::mpsc::unbounded::<Command>();
    registry.register("kv".to_string(), tx).unwrap();
    drop(rx);
    let r = registry.send_message(&"kv".to_string(), Command::ListTools { correlation_id: None });
    assert!(matches!(r, Err(Error::SendError(_))));
}

#[test]
fn unregister_removes_exactly_one_entry() {
    let mut registry = Registry::new();
    let (tx1, _rx1) = futures::channel::mpsc::unbounded::<Command>();
    let (tx2, _rx2) = futures::channel::mpsc::unbounded::<Command>();
    registry.register("a".to_string(), tx1).unwrap();
    registry.register("b".to_string(), tx2).unwrap();
    registry.unregister(&"a".to_string()).unwrap();
    assert_eq!(registry.list_extensions(), vec!["b".to_string()]);
    let r = registry.unregister(&"a".to_string());
    assert!(matches!(r, Err(Error::RegistryNotFound(_))));
}
