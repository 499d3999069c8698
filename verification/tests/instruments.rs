use daq_core::panels::instruments::{determine_panel_type, DeviceCategory, DeviceInfo, PanelType};

fn make_device(driver: &str, movable: bool, readable: bool, emission: bool, shutter: bool, wavelength: bool) -> DeviceInfo {
    DeviceInfo {
        id: "test-device".to_string(),
        name: "Test Device".to_string(),
        driver_type: driver.to_string(),
        is_movable: movable,
        is_readable: readable,
        is_emission_controllable: emission,
        is_shutter_controllable: shutter,
        is_wavelength_tunable: wavelength,
        ..Default::default()
    }
}

#[test]
fn test_dispatch_maitai_by_emission() {
    let dev = make_device("MaiTai DeepSee", false, true, true, false, false);
    assert_eq!(determine_panel_type(&dev), PanelType::MaiTai);
}

#[test]
fn test_dispatch_maitai_by_shutter() {
    let dev = make_device("SomeLaser", false, true, false, true, false);
    assert_eq!(determine_panel_type(&dev), PanelType::MaiTai);
}

#[test]
fn test_dispatch_maitai_by_wavelength() {
    let dev = make_device("TunableLaser", false, true, false, false, true);
    assert_eq!(determine_panel_type(&dev), PanelType::MaiTai);
}

#[test]
fn test_dispatch_maitai_priority_over_readable() {
    let dev = make_device("MaiTai", false, true, true, true, true);
    assert_eq!(determine_panel_type(&dev), PanelType::MaiTai);
}

#[test]
fn test_dispatch_power_meter() {
    let dev = make_device("Newport 1830-C", false, true, false, false, false);
    assert_eq!(determine_panel_type(&dev), PanelType::PowerMeter);
}

#[test]
fn test_dispatch_rotator_ell14() {
    let dev = make_device("Thorlabs ELL14", true, false, false, false, false);
    assert_eq!(determine_panel_type(&dev), PanelType::Rotator);
}

#[test]
fn test_dispatch_rotator_by_keyword() {
    let dev = make_device("Custom Rotator Mount", true, false, false, false, false);
    assert_eq!(determine_panel_type(&dev), PanelType::Rotator);
}

#[test]
fn test_dispatch_stage_esp300() {
    let dev = make_device("Newport ESP300", true, false, false, false, false);
    assert_eq!(determine_panel_type(&dev), PanelType::Stage);
}

#[test]
fn test_dispatch_stage_fallback() {
    let dev = make_device("Unknown Motor", true, false, false, false, false);
    assert_eq!(determine_panel_type(&dev), PanelType::Stage);
}

#[test]
fn test_dispatch_no_capabilities_fallback() {
    let dev = make_device("Unknown Device", false, false, false, false, false);
    assert_eq!(determine_panel_type(&dev), PanelType::Stage);
}

#[test]
fn test_dispatch_readable_movable_is_stage() {
    let dev = make_device("Encoder Stage", true, true, false, false, false);
    assert_eq!(determine_panel_type(&dev), PanelType::Stage);
}

#[test]
fn daq_drivers_get_the_daq_panel_first() {
    let dev = make_device("NI_DAQ PCI-MIO", false, true, true, false, false);
    assert_eq!(determine_panel_type(&dev), PanelType::Comedi);
    let dev = make_device("Comedi Analog Input", true, false, false, false, false);
    assert_eq!(determine_panel_type(&dev), PanelType::Comedi);
}

#[test]
fn device_categories_by_capability() {
    let mut laser = make_device("x", true, true, false, true, false);
    laser.is_frame_producer = true;
    assert_eq!(DeviceCategory::from_device_info(&laser), DeviceCategory::Laser);
    let mut camera = make_device("x", true, true, false, false, false);
    camera.is_frame_producer = true;
    assert_eq!(DeviceCategory::from_device_info(&camera), DeviceCategory::Camera);
    assert_eq!(DeviceCategory::from_device_info(&make_device("x", true, true, false, false, false)), DeviceCategory::Stage);
    assert_eq!(DeviceCategory::from_device_info(&make_device("Newport POWER meter", false, true, false, false, false)), DeviceCategory::PowerMeter);
    assert_eq!(DeviceCategory::from_device_info(&make_device("photodiode", false, true, false, false, false)), DeviceCategory::Detector);
    assert_eq!(DeviceCategory::from_device_info(&make_device("relay", false, false, false, false, false)), DeviceCategory::Other);
}

#[test]
fn device_category_labels_and_icons() {
    assert_eq!(DeviceCategory::PowerMeter.label(), "Power Meters");
    assert_eq!(DeviceCategory::Camera.icon(), "📷");
    assert_eq!(DeviceCategory::Other.icon(), "🔧");
}
