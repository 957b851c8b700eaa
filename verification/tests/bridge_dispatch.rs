use modex::bridge::{Bridge, Handler};

#[test]
fn emit_with_no_handlers_is_noop() {
    let bridge = Bridge::new();
    let deliveries = bridge.emit("click", Some("payload"));
    assert_eq!(deliveries.len(), 0);
}

#[test]
fn emit_with_no_matching_name_is_noop() {
    let mut bridge = Bridge::new();
    bridge.register(String::from("click"), Handler::ClickLogger);
    let deliveries = bridge.emit("show-file-picker", Some("payload"));
    assert_eq!(deliveries.len(), 0);
}

#[test]
fn emit_reaches_all_handlers_in_registration_order() {
    let mut bridge = Bridge::new();
    let first = bridge.register(String::from("click"), Handler::ClickLogger);
    let second = bridge.register(String::from("show-file-picker"), Handler::FilePicker);
    let third = bridge.register(String::from("click"), Handler::ClickLogger);
    let fourth = bridge.register(String::from("click"), Handler::FilePicker);

    let deliveries = bridge.emit("click", Some("Tauri is awesome!"));
    assert_eq!(deliveries.len(), 3);
    assert_eq!(deliveries[0].registration_id, first);
    assert_eq!(deliveries[1].registration_id, third);
    assert_eq!(deliveries[2].registration_id, fourth);
    assert_eq!(deliveries[0].handler, Handler::ClickLogger);
    assert_eq!(deliveries[2].handler, Handler::FilePicker);
    for d in &deliveries {
        assert_eq!(d.payload, "Tauri is awesome!");
        assert_ne!(d.registration_id, second);
    }
}

#[test]
fn register_unregister_emit_delivers_nothing() {
    let mut bridge = Bridge::new();
    let id = bridge.register(String::from("show-file-picker"), Handler::FilePicker);
    bridge.unregister(id);
    let deliveries = bridge.emit("show-file-picker", Some("/tmp/file"));
    assert_eq!(deliveries.len(), 0);
}

#[test]
fn unregister_is_idempotent_and_leaves_others_alone() {
    let mut bridge = Bridge::new();
    let kept = bridge.register(String::from("click"), Handler::ClickLogger);
    let revoked = bridge.register(String::from("click"), Handler::FilePicker);
    bridge.unregister(revoked);
    bridge.unregister(revoked);
    let deliveries = bridge.emit("click", None);
    assert_eq!(deliveries.len(), 1);
    assert_eq!(deliveries[0].registration_id, kept);
    assert_eq!(deliveries[0].handler, Handler::ClickLogger);
}

#[test]
fn missing_payload_substitutes_documented_default() {
    let mut bridge = Bridge::new();
    bridge.register(String::from("show-file-picker"), Handler::FilePicker);
    let deliveries = bridge.emit("show-file-picker", None);
    assert_eq!(deliveries.len(), 1);
    assert_eq!(deliveries[0].payload, "no value");
}

#[test]
fn present_payload_is_passed_through_unchanged() {
    let mut bridge = Bridge::new();
    bridge.register(String::from("show-file-picker"), Handler::FilePicker);
    let deliveries = bridge.emit("show-file-picker", Some("/home/user/song.mp3"));
    assert_eq!(deliveries.len(), 1);
    assert_eq!(deliveries[0].payload, "/home/user/song.mp3");
}

#[test]
fn registration_ids_are_fresh() {
    let mut bridge = Bridge::new();
    let a = bridge.register(String::from("click"), Handler::ClickLogger);
    let b = bridge.register(String::from("click"), Handler::ClickLogger);
    bridge.unregister(a);
    let c = bridge.register(String::from("click"), Handler::ClickLogger);
    assert_ne!(a, b);
    assert_ne!(b, c);
    assert_ne!(a, c);
}
