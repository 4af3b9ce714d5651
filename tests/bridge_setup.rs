use io_component::bridge::{Bridge, DeviceKind, StopToken};
use io_component::cell::I2Cell;
use io_component::msg::I2CDevice;
use io_component::util::vecs2map;

fn device_config(options: &[(&str, &str)]) -> I2CDevice {
    let mut topics: [String; 16] = Default::default();
    for pin in 0..8 {
        topics[pin] = format!("out{}", pin);
    }
    for pin in 8..16 {
        topics[pin] = format!("in{}", pin);
    }
    I2CDevice {
        bus: 1,
        address: 0x20,
        frequency: 10,
        device: "pca9555".to_string(),
        option_keys: options.iter().map(|(k, _)| k.to_string()).collect(),
        option_values: options.iter().map(|(_, v)| v.to_string()).collect(),
        topics,
    }
}

#[test]
fn end_to_end_mixed_chip() {
    let config = device_config(&[("mask", "FF00")]);
    assert_eq!(DeviceKind::from_tag(&config.device), Some(DeviceKind::Pca9555));
    let bridge = Bridge::new(0u16, config);
    assert_eq!(bridge.config_mask, 0xff00);
    assert!(!bridge.mask_fallback);
    let (outputs, inputs) = bridge.bindings();
    assert_eq!(outputs.len(), 8);
    assert_eq!(inputs.len(), 8);
    assert_eq!(outputs[0], (0, "out0".to_string()));
    assert_eq!(inputs[7], (15, "in15".to_string()));
    assert_eq!(bridge.period_ms(), 100);
    assert!(bridge.running.is_running());
}

#[test]
fn bridge_with_bad_mask_is_all_output() {
    let bridge = Bridge::new(0u16, device_config(&[("mask", "zz")]));
    assert_eq!(bridge.config_mask, 0x0000);
    assert!(bridge.mask_fallback);
    let (outputs, inputs) = bridge.bindings();
    assert_eq!(outputs.len(), 16);
    assert!(inputs.is_empty());
}

#[test]
fn unknown_device_tags_are_skipped() {
    assert_eq!(DeviceKind::from_tag(&"pca9555".to_string()), Some(DeviceKind::Pca9555));
    assert_eq!(DeviceKind::from_tag(&"PCA9555".to_string()), None);
    assert_eq!(DeviceKind::from_tag(&"mcp23017".to_string()), None);
    assert_eq!(DeviceKind::from_tag(&"".to_string()), None);
}

#[test]
fn stop_reaches_every_holder() {
    let bridge = Bridge::new(0u16, device_config(&[("mode", "input")]));
    let token: StopToken = bridge.running.clone();
    assert!(token.is_running());
    bridge.stop();
    assert!(!token.is_running());
    assert!(!bridge.running.is_running());
}

#[test]
fn shared_handle_clones_share_the_device() {
    let cell = I2Cell::new(0u16);
    let other = cell.clone();
    *other.lock().unwrap() = 0x1234;
    assert_eq!(*cell.lock().unwrap(), 0x1234);
    *cell.lock_recovered() |= 0x0001;
    assert_eq!(*other.lock_recovered(), 0x1235);
}

#[test]
fn shared_handle_interleaved_access_is_never_torn() {
    let cell = I2Cell::new((0u16, 0u16));
    let writer = cell.clone();
    let reader = cell.clone();
    for i in 0..1000u16 {
        if i % 2 == 0 {
            let mut guard = writer.lock_recovered();
            guard.0 = i;
            guard.1 = !i;
        } else {
            let guard = reader.lock_recovered();
            assert_eq!(guard.1, !guard.0);
        }
    }
    let last = *cell.lock_recovered();
    assert_eq!(last, (998, !998));
}

#[test]
fn vecs2map_pairs_keys_and_values() {
    let m = vecs2map(vec!["a", "b", "a"], vec![1, 2, 3]);
    assert_eq!(m.len(), 2);
    assert_eq!(m["a"], 3);
    assert_eq!(m["b"], 2);
    let m = vecs2map(vec![1u8, 2, 3], vec!["x"]);
    assert_eq!(m.len(), 1);
    assert_eq!(m[&1], "x");
    let m = vecs2map(Vec::<u8>::new(), vec![1, 2]);
    assert!(m.is_empty());
}

