use ethercrab::maindevice::{MainDevice, Timeouts};
use ethercrab::maindevice_config::{MainDeviceConfig, RetryBehaviour};
use ethercrab::pdu_loop::PduStorage;

#[test]
fn retry_count_sanity_check() {
    assert_eq!(RetryBehaviour::Never.retry_count(), 0);
    assert_eq!(RetryBehaviour::Count(10).retry_count(), 10);
    assert_eq!(RetryBehaviour::Forever.retry_count(), usize::MAX);
}

#[test]
fn config_defaults() {
    let config = MainDeviceConfig::default();

    assert_eq!(config.dc_static_sync_iterations, 10_000);
    assert_eq!(config.retry_behaviour, RetryBehaviour::Never);
}

#[test]
fn maindevice_new() {
    let storage = PduStorage::new(2, PduStorage::element_size(16));
    let maindevice = MainDevice::new(storage, Timeouts::default(), MainDeviceConfig::default());

    assert_eq!(maindevice.num_subdevices(), 0);
    assert_eq!(maindevice.dc_ref_address(), None);
    assert_eq!(maindevice.max_frame_data(), 28);
}

#[test]
fn maindevice_release_all_sets_exit() {
    let storage = PduStorage::new(1, 28);
    let maindevice = MainDevice::new(storage, Timeouts::default(), MainDeviceConfig::default());

    let storage = maindevice.release_all();

    assert!(storage.should_exit());
}
