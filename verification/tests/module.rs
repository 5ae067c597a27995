use canopus_bluetooth_audio_core::module::{pack, ModuleState, MAGIC};

const REBOOT: i32 = 3;

#[test]
fn a_module_that_is_not_resident_can_leave() {
    let mut module = ModuleState::default();
    assert_eq!(module.prepare(), 0);
    assert_eq!(module.activate(0, None), 0);
    assert!(module.active);
    assert_eq!(module.stop(REBOOT), 0);
    assert!(!module.active);
}

#[test]
fn a_resident_module_asks_for_a_reboot() {
    let mut module = ModuleState::default();
    assert_eq!(module.activate(0, Some(true)), 0);
    assert_eq!(module.deactivate(REBOOT), REBOOT);
    assert!(module.active);
    assert_eq!(module.activate(0, None), 0);
    assert!(module.resident);
    module.prepare();
    assert_eq!(module, ModuleState::default());
}

#[test]
fn errors_are_kept_as_status_words() {
    let mut module = ModuleState::default();
    assert_eq!(module.activate(-1105, Some(true)), -1105);
    assert!(!module.active);
    assert!(!module.resident);
    assert_eq!(module.query(&[]), vec![MAGIC, 0, 0, -1105i32 as u32]);
    assert_eq!(module.publish_native_app(0), 0);
    assert_eq!(module.publish_native_app(12), 12);
    module.active = true;
    assert_eq!(module.query(&[5, 6]), vec![0x4241_5531, 1, 0, 12, 5, 6]);
}

#[test]
fn names_are_cut_or_filled_up() {
    assert_eq!(pack::<4>(b"ab"), [b'a', b'b', 0, 0]);
    assert_eq!(pack::<4>(b"abcdef"), *b"abcd");
}
